//! The all-pairs comparison engine.
//!
//! Every source record is compared against every destination record.
//! A pair resolving to the same underlying file (equal filesystem
//! identity) is skipped outright: no diagnostic, no match. Every other
//! pair yields exactly one comparison event, in destination order; the
//! event is flagged as a match exactly when the digests are equal.
//! Reporting (one diagnostic line per event, one result line per match)
//! is the caller's side of the contract; the engine fixes which events
//! exist and in what order per source record.

use vstd::prelude::*;

use crate::records::HomeworkData;
use crate::records::HomeworkDataV;
use crate::records::OpenedFileV;
use crate::records::record_of_opened;

verus! {

/// A source and a destination record resolve to the same underlying file.
pub open spec fn is_self_pair(s: HomeworkDataV, d: HomeworkDataV) -> bool {
    s.meta.inode == d.meta.inode
}

/// A reportable match: distinct filesystem identities, equal digests.
pub open spec fn is_match_pair(s: HomeworkDataV, d: HomeworkDataV) -> bool {
    !is_self_pair(s, d) && s.hash_val == d.hash_val
}

/// One comparison of a fixed source record against the destination record
/// at `dest_index`. Every event calls for a diagnostic line; an event
/// with `matched` set additionally calls for a result line.
#[derive(PartialEq, Eq, Structural, Clone, Copy, Debug)]
pub struct CompareEvent {
    pub dest_index: usize,
    pub matched: bool,
}

/// The events a fixed source record produces against the first `n`
/// destination records: one per non-self pair, in destination order.
pub open spec fn compare_events_upto(
    s: HomeworkDataV,
    dest: Seq<HomeworkDataV>,
    n: int,
) -> Seq<CompareEvent>
    decreases n,
{
    if n <= 0 {
        Seq::empty()
    } else {
        let rest = compare_events_upto(s, dest, n - 1);
        if is_self_pair(s, dest[n - 1]) {
            rest
        } else {
            rest.push(
                (CompareEvent {
                    dest_index: (n - 1) as usize,
                    matched: s.hash_val == dest[n - 1].hash_val,
                }),
            )
        }
    }
}

/// The events a fixed source record produces against the whole
/// destination collection.
pub open spec fn compare_events(s: HomeworkDataV, dest: Seq<HomeworkDataV>) -> Seq<CompareEvent> {
    compare_events_upto(s, dest, dest.len() as int)
}

/// Byte-for-byte equality of two digests.
pub fn bytes_equal(a: &Vec<u8>, b: &Vec<u8>) -> (r: bool)
    ensures
        r == (a@ == b@),
{
    if a.len() != b.len() {
        return false;
    }
    let n = a.len();
    let mut i: usize = 0;
    while i < n
        invariant
            n == a.len(),
            n == b.len(),
            i <= n,
            forall|k: int| 0 <= k < i ==> a@[k] == b@[k],
        decreases n - i,
    {
        if a[i] != b[i] {
            return false;
        }
        i = i + 1;
    }
    proof {
        assert(a@ =~= b@);
    }
    true
}

/// Comparison engine, inner pass: one source record against the whole
/// destination collection, sequentially in destination order.
pub fn compare_one(s: &HomeworkData, dest: &Vec<HomeworkData>) -> (r: Vec<CompareEvent>)
    ensures
        r@ == compare_events(s.deep_view(), dest.deep_view()),
{
    let ghost sv = s.deep_view();
    let ghost dv = dest.deep_view();
    let mut r: Vec<CompareEvent> = Vec::new();
    let n = dest.len();
    let mut j: usize = 0;
    while j < n
        invariant
            n == dest.len(),
            j <= n,
            sv == s.deep_view(),
            dv == dest.deep_view(),
            r@ == compare_events_upto(sv, dv, j as int),
        decreases n - j,
    {
        let d = &dest[j];
        if s.meta.inode != d.meta.inode {
            let m = bytes_equal(&s.hash_val, &d.hash_val);
            r.push(CompareEvent { dest_index: j, matched: m });
        }
        proof {
            assert(r@ =~= compare_events_upto(sv, dv, j + 1));
        }
        j = j + 1;
    }
    r
}

/// Comparison engine, outer pass: the full cross product, one event list
/// per source record, in source order. Each inner list is independent of
/// the others, so callers may produce them in any order or in parallel.
pub fn compare_all(src: &Vec<HomeworkData>, dest: &Vec<HomeworkData>) -> (r: Vec<
    Vec<CompareEvent>,
>)
    ensures
        r@.len() == src@.len(),
        forall|i: int|
            0 <= i < src@.len() ==> (#[trigger] r@[i])@ == compare_events(
                src.deep_view()[i],
                dest.deep_view(),
            ),
{
    let mut r: Vec<Vec<CompareEvent>> = Vec::new();
    let n = src.len();
    let mut i: usize = 0;
    while i < n
        invariant
            n == src.len(),
            i <= n,
            r@.len() == i,
            forall|k: int|
                0 <= k < i ==> (#[trigger] r@[k])@ == compare_events(
                    src.deep_view()[k],
                    dest.deep_view(),
                ),
        decreases n - i,
    {
        let events = compare_one(&src[i], dest);
        r.push(events);
        i = i + 1;
    }
    r
}

/// Soundness of the event list: every event names a real destination
/// index below `n`, never a self pair, and its match flag is exact. In
/// particular a pair resolving to the same underlying file produces no
/// event at all: no diagnostic and no match.
proof fn lemma_events_sound_upto(s: HomeworkDataV, dest: Seq<HomeworkDataV>, n: int)
    requires
        n <= dest.len(),
        dest.len() <= usize::MAX,
    ensures
        forall|k: int|
            0 <= k < compare_events_upto(s, dest, n).len() ==> {
                let e = #[trigger] compare_events_upto(s, dest, n)[k];
                &&& e.dest_index < n
                &&& !is_self_pair(s, dest[e.dest_index as int])
                &&& e.matched == is_match_pair(s, dest[e.dest_index as int])
            },
    decreases n,
{
    if n > 0 {
        lemma_events_sound_upto(s, dest, n - 1);
        let rest = compare_events_upto(s, dest, n - 1);
        let events = compare_events_upto(s, dest, n);
        assert forall|k: int| 0 <= k < events.len() implies {
            let e = #[trigger] events[k];
            &&& e.dest_index < n
            &&& !is_self_pair(s, dest[e.dest_index as int])
            &&& e.matched == is_match_pair(s, dest[e.dest_index as int])
        } by {
            if is_self_pair(s, dest[n - 1]) {
                assert(events[k] == rest[k]);
                assert(rest[k].dest_index < n - 1);
            } else if k < rest.len() {
                assert(events[k] == rest[k]);
                assert(rest[k].dest_index < n - 1);
            } else {
                assert(events[k].dest_index == n - 1);
            }
        }
    }
}

/// Self-skip: every emitted event is for a non-self pair with an exact
/// match flag; same-identity pairs leave no trace in the event list.
pub proof fn lemma_events_sound(s: HomeworkDataV, dest: Seq<HomeworkDataV>)
    requires
        dest.len() <= usize::MAX,
    ensures
        forall|k: int|
            0 <= k < compare_events(s, dest).len() ==> {
                let e = #[trigger] compare_events(s, dest)[k];
                &&& e.dest_index < dest.len()
                &&& !is_self_pair(s, dest[e.dest_index as int])
                &&& e.matched == is_match_pair(s, dest[e.dest_index as int])
            },
{
    lemma_events_sound_upto(s, dest, dest.len() as int);
}

/// Completeness over a prefix: every non-self pair below `n` has an
/// event.
proof fn lemma_events_complete_upto(s: HomeworkDataV, dest: Seq<HomeworkDataV>, n: int, j: int)
    requires
        n <= dest.len(),
        dest.len() <= usize::MAX,
        0 <= j < n,
        !is_self_pair(s, dest[j]),
    ensures
        exists|k: int|
            0 <= k < compare_events_upto(s, dest, n).len() && (#[trigger] compare_events_upto(
                s,
                dest,
                n,
            )[k]).dest_index == j,
    decreases n,
{
    let rest = compare_events_upto(s, dest, n - 1);
    let events = compare_events_upto(s, dest, n);
    if j == n - 1 {
        assert(events == rest.push(
            (CompareEvent {
                dest_index: (n - 1) as usize,
                matched: s.hash_val == dest[n - 1].hash_val,
            }),
        ));
        assert(events[events.len() - 1].dest_index == j);
    } else {
        lemma_events_complete_upto(s, dest, n - 1, j);
        let k = choose|k: int| 0 <= k < rest.len() && (#[trigger] rest[k]).dest_index == j;
        assert(events[k] == rest[k]);
        assert(events[k].dest_index == j);
    }
}

/// Completeness: every pair `(s, dest[j])` with distinct identities is
/// compared, so a pair with equal digests is reported as a match.
pub proof fn lemma_events_complete(s: HomeworkDataV, dest: Seq<HomeworkDataV>, j: int)
    requires
        0 <= j < dest.len(),
        dest.len() <= usize::MAX,
        !is_self_pair(s, dest[j]),
    ensures
        exists|k: int|
            0 <= k < compare_events(s, dest).len() && (#[trigger] compare_events(
                s,
                dest,
            )[k]).dest_index == j,
{
    lemma_events_complete_upto(s, dest, dest.len() as int, j);
    let events = compare_events_upto(s, dest, dest.len() as int);
    let k = choose|k: int| 0 <= k < events.len() && (#[trigger] events[k]).dest_index == j;
    assert(compare_events(s, dest)[k].dest_index == j);
}

/// Destination indices strictly increase along the event list, so no
/// pair is ever reported twice: together with completeness, every
/// non-self pair appears exactly once.
proof fn lemma_events_distinct_upto(s: HomeworkDataV, dest: Seq<HomeworkDataV>, n: int)
    requires
        n <= dest.len(),
        dest.len() <= usize::MAX,
    ensures
        forall|k1: int, k2: int|
            0 <= k1 < k2 < compare_events_upto(s, dest, n).len() ==> (
            #[trigger] compare_events_upto(s, dest, n)[k1]).dest_index < (
            #[trigger] compare_events_upto(s, dest, n)[k2]).dest_index,
    decreases n,
{
    if n > 0 {
        lemma_events_distinct_upto(s, dest, n - 1);
        lemma_events_sound_upto(s, dest, n - 1);
        let rest = compare_events_upto(s, dest, n - 1);
        let events = compare_events_upto(s, dest, n);
        assert forall|k1: int, k2: int|
            0 <= k1 < k2 < events.len() implies (#[trigger] events[k1]).dest_index < (
        #[trigger] events[k2]).dest_index by {
            if k2 < rest.len() {
                assert(events[k1] == rest[k1]);
                assert(events[k2] == rest[k2]);
                assert(rest[k1].dest_index < rest[k2].dest_index);
            } else {
                assert(events[k1] == rest[k1]);
                assert(rest[k1].dest_index < n - 1);
                assert(events[k2].dest_index == n - 1);
            }
        }
    }
}

/// No pair is reported twice: distinct events of one source record name
/// distinct destination indices.
pub proof fn lemma_events_distinct(s: HomeworkDataV, dest: Seq<HomeworkDataV>, k1: int, k2: int)
    requires
        dest.len() <= usize::MAX,
        0 <= k1 < compare_events(s, dest).len(),
        0 <= k2 < compare_events(s, dest).len(),
        k1 != k2,
    ensures
        compare_events(s, dest)[k1].dest_index != compare_events(s, dest)[k2].dest_index,
{
    lemma_events_distinct_upto(s, dest, dest.len() as int);
}

/// Symmetry of the match relation: which record comes from the source
/// collection and which from the destination does not affect whether the
/// pair is a match.
pub proof fn lemma_match_symmetric(x: HomeworkDataV, y: HomeworkDataV)
    ensures
        is_match_pair(x, y) == is_match_pair(y, x),
{
}

/// Symmetry at the event level: a matching pair is reported whichever of
/// the two records is the source.
pub proof fn lemma_symmetry(x: HomeworkDataV, y: HomeworkDataV)
    requires
        is_match_pair(x, y),
    ensures
        compare_events(x, seq![y]).len() == 1,
        compare_events(x, seq![y])[0] == (CompareEvent { dest_index: 0, matched: true }),
        compare_events(y, seq![x]).len() == 1,
        compare_events(y, seq![x])[0] == (CompareEvent { dest_index: 0, matched: true }),
{
    let dx = seq![y];
    let dy = seq![x];
    assert(compare_events_upto(x, dx, 0) == Seq::<CompareEvent>::empty());
    assert(compare_events_upto(x, dx, 1) == compare_events_upto(x, dx, 0).push(
        (CompareEvent { dest_index: 0, matched: true }),
    ));
    assert(compare_events_upto(y, dy, 0) == Seq::<CompareEvent>::empty());
    assert(compare_events_upto(y, dy, 1) == compare_events_upto(y, dy, 0).push(
        (CompareEvent { dest_index: 0, matched: true }),
    ));
}

/// Two opened files with byte-identical content and distinct filesystem
/// identities load to records that form a match pair, in either
/// direction.
pub proof fn lemma_content_match(f: OpenedFileV, g: OpenedFileV)
    requires
        f.content == g.content,
        f.inode != g.inode,
    ensures
        is_match_pair(record_of_opened(f), record_of_opened(g)),
        is_match_pair(record_of_opened(g), record_of_opened(f)),
{
}

} // verus!
