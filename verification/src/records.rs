//! Digested file records and the best-effort file set loader.
//!
//! An input list is a sequence of load attempts: for each listed path the
//! caller either opened the file (and hands over its path, filesystem
//! identity and content) or failed to open it. The loader turns the
//! successful attempts, in their original order, into digested records;
//! failed attempts are silently dropped.

use vstd::prelude::*;

use crate::digest::digest_bytes;
use crate::digest::sha512_of;

verus! {

/// Mathematical view of [`FileData`].
pub struct FileDataV {
    pub path: Seq<char>,
    pub inode: u64,
}

/// A successfully opened file: its listed path and its filesystem
/// identity (unique among files on one filesystem; two entries with equal
/// `inode` are the same underlying file).
pub struct FileData {
    pub path: String,
    pub inode: u64,
}

impl View for FileData {
    type V = FileDataV;

    open spec fn view(&self) -> FileDataV {
        FileDataV { path: self.path@, inode: self.inode }
    }
}

impl DeepView for FileData {
    type V = FileDataV;

    open spec fn deep_view(&self) -> FileDataV {
        self@
    }
}

/// Mathematical view of [`HomeworkData`].
pub struct HomeworkDataV {
    pub meta: FileDataV,
    pub hash_val: Seq<u8>,
}

impl HomeworkDataV {
    /// A well-formed record carries a full 512-bit digest.
    pub open spec fn wf(self) -> bool {
        self.hash_val.len() == 64
    }
}

/// A digested record: a file's metadata together with the SHA-512 digest
/// of its content.
pub struct HomeworkData {
    pub meta: FileData,
    pub hash_val: Vec<u8>,
}

impl View for HomeworkData {
    type V = HomeworkDataV;

    open spec fn view(&self) -> HomeworkDataV {
        HomeworkDataV { meta: self.meta@, hash_val: self.hash_val@ }
    }
}

impl DeepView for HomeworkData {
    type V = HomeworkDataV;

    open spec fn deep_view(&self) -> HomeworkDataV {
        self@
    }
}

/// Mathematical view of [`OpenedFile`].
pub struct OpenedFileV {
    pub path: Seq<char>,
    pub inode: u64,
    pub content: Seq<u8>,
}

/// A file that could be opened: its listed path, filesystem identity and
/// full byte content.
pub struct OpenedFile {
    pub path: String,
    pub inode: u64,
    pub content: Vec<u8>,
}

impl View for OpenedFile {
    type V = OpenedFileV;

    open spec fn view(&self) -> OpenedFileV {
        OpenedFileV { path: self.path@, inode: self.inode, content: self.content@ }
    }
}

impl DeepView for OpenedFile {
    type V = OpenedFileV;

    open spec fn deep_view(&self) -> OpenedFileV {
        self@
    }
}

/// Mathematical view of [`LoadAttempt`].
pub enum LoadAttemptV {
    Opened(OpenedFileV),
    Failed,
}

/// One line of an input list after the attempt to open it: either the
/// opened file, or a marker that the path could not be opened (missing,
/// permission denied, not a regular file, unreadable line).
pub enum LoadAttempt {
    Opened(OpenedFile),
    Failed,
}

impl View for LoadAttempt {
    type V = LoadAttemptV;

    open spec fn view(&self) -> LoadAttemptV {
        match self {
            LoadAttempt::Opened(f) => LoadAttemptV::Opened(f@),
            LoadAttempt::Failed => LoadAttemptV::Failed,
        }
    }
}

impl DeepView for LoadAttempt {
    type V = LoadAttemptV;

    open spec fn deep_view(&self) -> LoadAttemptV {
        self@
    }
}

/// The record a successfully opened file loads to: its metadata plus the
/// digest of its content.
pub open spec fn record_of_opened(f: OpenedFileV) -> HomeworkDataV {
    HomeworkDataV {
        meta: FileDataV { path: f.path, inode: f.inode },
        hash_val: sha512_of(f.content),
    }
}

/// The collection an input list loads to: exactly the successfully opened
/// entries, in their original relative order, each digested; failed
/// entries leave no trace.
pub open spec fn loaded_records(entries: Seq<LoadAttemptV>) -> Seq<HomeworkDataV>
    decreases entries.len(),
{
    if entries.len() == 0 {
        Seq::empty()
    } else {
        let rest = loaded_records(entries.drop_last());
        match entries.last() {
            LoadAttemptV::Opened(f) => rest.push(record_of_opened(f)),
            LoadAttemptV::Failed => rest,
        }
    }
}

/// File set loader: best-effort, skip failures. The result holds one
/// digested record per successfully opened entry, in input order; no
/// error is ever raised for the failed entries. Every record produced is
/// well formed: it carries a full 512-bit digest.
pub fn load_collection(entries: &Vec<LoadAttempt>) -> (r: Vec<HomeworkData>)
    ensures
        r.deep_view() == loaded_records(entries.deep_view()),
        forall|k: int| 0 <= k < r@.len() ==> (#[trigger] r@[k])@.wf(),
{
    let ghost ev = entries.deep_view();
    let mut r: Vec<HomeworkData> = Vec::new();
    proof {
        assert(ev.take(0) =~= Seq::<LoadAttemptV>::empty());
        assert(r.deep_view() =~= loaded_records(ev.take(0)));
    }
    let n = entries.len();
    let mut i: usize = 0;
    while i < n
        invariant
            n == entries.len(),
            i <= n,
            ev == entries.deep_view(),
            r.deep_view() == loaded_records(ev.take(i as int)),
            forall|k: int| 0 <= k < r@.len() ==> (#[trigger] r@[k])@.wf(),
        decreases n - i,
    {
        proof {
            assert(ev.take(i + 1).drop_last() =~= ev.take(i as int));
            assert(ev.take(i + 1).last() == ev[i as int]);
        }
        match &entries[i] {
            LoadAttempt::Opened(f) => {
                let d = digest_bytes(f.content.as_slice());
                let rec = HomeworkData {
                    meta: FileData { path: f.path.clone(), inode: f.inode },
                    hash_val: d,
                };
                r.push(rec);
                proof {
                    assert(r.deep_view() =~= loaded_records(ev.take(i + 1)));
                }
            },
            LoadAttempt::Failed => {
                proof {
                    assert(r.deep_view() =~= loaded_records(ev.take(i + 1)));
                }
            },
        }
        i = i + 1;
    }
    proof {
        assert(ev.take(n as int) =~= ev);
    }
    r
}

} // verus!
