use dupcheck::compare::compare_all;
use dupcheck::compare::compare_one;
use dupcheck::compare::CompareEvent;
use dupcheck::digest::digest_bytes;
use dupcheck::records::load_collection;
use dupcheck::records::FileData;
use dupcheck::records::HomeworkData;
use dupcheck::records::LoadAttempt;
use dupcheck::records::OpenedFile;

fn record(path: &str, inode: u64, content: &[u8]) -> HomeworkData {
    HomeworkData {
        meta: FileData { path: path.to_string(), inode },
        hash_val: digest_bytes(content),
    }
}

fn opened(path: &str, inode: u64, content: &[u8]) -> LoadAttempt {
    LoadAttempt::Opened(OpenedFile {
        path: path.to_string(),
        inode,
        content: content.to_vec(),
    })
}

#[test]
fn loader_keeps_valid_entries_in_order() {
    let entries = vec![
        opened("a.txt", 1, b"alpha"),
        LoadAttempt::Failed,
        opened("b.txt", 2, b"beta"),
        LoadAttempt::Failed,
        LoadAttempt::Failed,
        opened("c.txt", 3, b"gamma"),
    ];
    let records = load_collection(&entries);
    assert_eq!(records.len(), 3);
    assert_eq!(records[0].meta.path, "a.txt");
    assert_eq!(records[0].meta.inode, 1);
    assert_eq!(records[0].hash_val, digest_bytes(b"alpha"));
    assert_eq!(records[1].meta.path, "b.txt");
    assert_eq!(records[2].meta.path, "c.txt");
    assert_eq!(records[2].hash_val, digest_bytes(b"gamma"));
}

#[test]
fn loader_of_nothing_is_empty() {
    let records = load_collection(&Vec::new());
    assert_eq!(records.len(), 0);
}

#[test]
fn loader_of_only_failures_is_empty() {
    let entries = vec![LoadAttempt::Failed, LoadAttempt::Failed];
    let records = load_collection(&entries);
    assert_eq!(records.len(), 0);
}

#[test]
fn self_pair_produces_no_event() {
    // The same underlying file listed under two path spellings: equal
    // identity, so neither a diagnostic nor a match may appear.
    let s = record("./f.txt", 7, b"hello");
    let dest = vec![record("f.txt", 7, b"hello")];
    let events = compare_one(&s, &dest);
    assert_eq!(events.len(), 0);
}

#[test]
fn equal_content_distinct_identity_matches() {
    let s = record("x.txt", 1, b"hello");
    let dest = vec![record("y.txt", 2, b"hello")];
    let events = compare_one(&s, &dest);
    assert_eq!(events.len(), 1);
    assert_eq!(events[0], CompareEvent { dest_index: 0, matched: true });
}

#[test]
fn matching_is_symmetric() {
    let x = record("x.txt", 1, b"same bytes");
    let y = record("y.txt", 2, b"same bytes");
    let forward = compare_one(&x, &vec![record("y.txt", 2, b"same bytes")]);
    let backward = compare_one(&y, &vec![record("x.txt", 1, b"same bytes")]);
    assert_eq!(forward.len(), 1);
    assert!(forward[0].matched);
    assert_eq!(backward.len(), 1);
    assert!(backward[0].matched);
}

#[test]
fn different_content_gives_event_but_no_match() {
    let s = record("x.txt", 1, b"hello");
    let dest = vec![record("y.txt", 2, b"world")];
    let events = compare_one(&s, &dest);
    assert_eq!(events.len(), 1);
    assert_eq!(events[0], CompareEvent { dest_index: 0, matched: false });
}

#[test]
fn events_follow_destination_order() {
    let s = record("s.txt", 10, b"needle");
    let dest = vec![
        record("d0.txt", 1, b"hay"),
        record("d1.txt", 10, b"needle"),
        record("d2.txt", 3, b"needle"),
        record("d3.txt", 4, b"hay"),
    ];
    let events = compare_one(&s, &dest);
    // d1 shares the source's identity and is skipped.
    assert_eq!(events.len(), 3);
    assert_eq!(events[0], CompareEvent { dest_index: 0, matched: false });
    assert_eq!(events[1], CompareEvent { dest_index: 2, matched: true });
    assert_eq!(events[2], CompareEvent { dest_index: 3, matched: false });
}

#[test]
fn two_equal_destinations_give_two_matches() {
    let s = record("s.txt", 1, b"dup");
    let dest = vec![record("d1.txt", 2, b"dup"), record("d2.txt", 3, b"dup")];
    let events = compare_one(&s, &dest);
    assert_eq!(events.len(), 2);
    assert!(events[0].matched && events[1].matched);
}

#[test]
fn scenario_hello_world() {
    // Source: a.txt ("hello"), b.txt ("world").
    // Destination: c.txt ("hello"), d.txt ("bye").
    // Expected: one match, a.txt with c.txt; diagnostics for all four
    // non-self pairs.
    let src = vec![record("a.txt", 1, b"hello"), record("b.txt", 2, b"world")];
    let dest = vec![record("c.txt", 3, b"hello"), record("d.txt", 4, b"bye")];
    let all = compare_all(&src, &dest);
    assert_eq!(all.len(), 2);
    assert_eq!(all[0].len(), 2);
    assert_eq!(all[1].len(), 2);
    assert_eq!(all[0][0], CompareEvent { dest_index: 0, matched: true });
    assert_eq!(all[0][1], CompareEvent { dest_index: 1, matched: false });
    assert_eq!(all[1][0], CompareEvent { dest_index: 0, matched: false });
    assert_eq!(all[1][1], CompareEvent { dest_index: 1, matched: false });
    let matches: usize = all
        .iter()
        .map(|evs| evs.iter().filter(|e| e.matched).count())
        .sum();
    assert_eq!(matches, 1);
}

#[test]
fn loaded_collections_compare_end_to_end() {
    let src_entries = vec![opened("a.txt", 1, b"hello"), LoadAttempt::Failed];
    let dest_entries = vec![opened("c.txt", 3, b"hello")];
    let src = load_collection(&src_entries);
    let dest = load_collection(&dest_entries);
    let all = compare_all(&src, &dest);
    assert_eq!(all.len(), 1);
    assert_eq!(all[0].len(), 1);
    assert!(all[0][0].matched);
}
