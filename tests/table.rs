use pipe_handle::handle::OsFailure;
use pipe_handle::table::{Descriptors, End, Entry, FIRST_PIPE_OBJECT};

fn entry(object: u64, end: End) -> Entry {
    Entry { object: Some(object), end, cloexec: true }
}

fn unknown() -> Entry {
    Entry { object: None, end: End::Other, cloexec: true }
}

#[test]
fn new_table_owns_nothing() {
    let t = Descriptors::new();
    assert!(!t.owns(0));
    assert!(!t.owns(3));
    assert_eq!(t.entry(3), None);
    assert!(t.has_fresh_object());
}

#[test]
fn open_pipe_records_both_ends() {
    let mut t = Descriptors::new();
    let (r, w) = t.open_pipe(3, 4, 0, 0).unwrap();
    assert_eq!(r.as_raw_fd(), 3);
    assert_eq!(w.as_raw_fd(), 4);
    assert_eq!(t.entry(3), Some(entry(3, End::Read)));
    assert_eq!(t.entry(4), Some(entry(3, End::Write)));
    let (r2, w2) = t.open_pipe(5, 6, 0, 0).unwrap();
    assert_eq!(t.entry(5), Some(entry(4, End::Read)));
    assert_eq!(t.entry(6), Some(entry(4, End::Write)));
    assert_eq!(r2.as_raw_fd(), 5);
    assert_eq!(w2.as_raw_fd(), 6);
    assert_eq!(FIRST_PIPE_OBJECT, 3);
}

#[test]
fn open_pipe_needs_both_flags_set() {
    let mut t = Descriptors::new();
    assert!(matches!(t.open_pipe(3, 4, -1, 0), Err(OsFailure::Cloexec)));
    assert!(matches!(t.open_pipe(3, 4, 0, -1), Err(OsFailure::Cloexec)));
    assert!(!t.owns(3));
    assert!(!t.owns(4));
    // The failed attempts used no object number.
    let _p = t.open_pipe(3, 4, 0, 0).unwrap();
    assert_eq!(t.entry(3), Some(entry(3, End::Read)));
}

#[test]
fn stream_duplicates_share_the_stream_object() {
    let mut t = Descriptors::new();
    let a = t.dup_stream(0, 10, 0).unwrap();
    let b = t.dup_stream(0, 11, 0).unwrap();
    let c = t.dup_stream(2, 12, 0).unwrap();
    assert_eq!(t.entry(10), Some(entry(0, End::Other)));
    assert_eq!(t.entry(11), Some(entry(0, End::Other)));
    assert_eq!(t.entry(12), Some(entry(2, End::Other)));
    assert_eq!((a.as_raw_fd(), b.as_raw_fd(), c.as_raw_fd()), (10, 11, 12));
    assert!(matches!(t.dup_stream(1, 13, 1), Err(OsFailure::Cloexec)));
    assert!(!t.owns(13));
}

#[test]
fn adopted_descriptor_has_unknown_object() {
    let mut t = Descriptors::new();
    let _p = t.open_pipe(3, 4, 0, 0).unwrap();
    let h = t.adopt(10, 0).unwrap();
    assert_eq!(h.as_raw_fd(), 10);
    assert_eq!(t.entry(10), Some(unknown()));
    let big = t.adopt(i32::MAX, 0).unwrap();
    assert_eq!(big.as_raw_fd(), i32::MAX);
    assert_eq!(t.entry(i32::MAX), Some(unknown()));
    assert!(matches!(t.adopt(11, -1), Err(OsFailure::Cloexec)));
    assert!(!t.owns(11));
}

#[test]
fn write_end_taken_back_from_a_file_is_of_unknown_origin() {
    // The write end is handed out (to a file) and taken back: the table no
    // longer knows it as the pipe's writer, and records it as unknown.
    let mut t = Descriptors::new();
    let (_r, w) = t.open_pipe(3, 4, 0, 0).unwrap();
    assert_eq!(t.release(w), 4);
    let back = t.adopt(4, 0).unwrap();
    assert_eq!(t.entry(4), Some(unknown()));
    let copy = t.duplicate(&back, 5, 0).unwrap();
    assert_eq!(t.entry(5), Some(unknown()));
    assert_eq!(copy.as_raw_fd(), 5);
}

#[test]
fn duplicate_shares_object_and_end() {
    let mut t = Descriptors::new();
    let (r, w) = t.open_pipe(3, 4, 0, 0).unwrap();
    let d = t.duplicate(&w, 7, 0).unwrap();
    assert_eq!(d.as_raw_fd(), 7);
    assert_eq!(t.entry(7), Some(entry(3, End::Write)));
    let dr = t.duplicate(&r, 8, 0).unwrap();
    assert_eq!(t.entry(8), Some(entry(3, End::Read)));
    assert_eq!(dr.as_raw_fd(), 8);
    assert!(matches!(t.duplicate(&w, 9, 1), Err(OsFailure::Cloexec)));
    assert!(!t.owns(9));
}

#[test]
fn duplicate_survives_release_of_original() {
    let mut t = Descriptors::new();
    let (_r, w) = t.open_pipe(3, 4, 0, 0).unwrap();
    let d = t.duplicate(&w, 5, 0).unwrap();
    assert_eq!(t.release(w), 4);
    assert!(!t.owns(4));
    assert_eq!(t.entry(5), Some(entry(3, End::Write)));
    assert_eq!(d.as_raw_fd(), 5);
}

#[test]
fn original_survives_release_of_duplicate() {
    let mut t = Descriptors::new();
    let (_r, w) = t.open_pipe(3, 4, 0, 0).unwrap();
    let d = t.duplicate(&w, 5, 0).unwrap();
    assert_eq!(t.release(d), 5);
    assert!(!t.owns(5));
    assert_eq!(t.entry(4), Some(entry(3, End::Write)));
    assert_eq!(w.as_raw_fd(), 4);
}

#[test]
fn writers_gone_after_duplicate_and_original_released() {
    // A pipe (3, 4); the write end is duplicated as 5 and the original
    // released; after the duplicate is released too, nothing writes to it.
    let mut t = Descriptors::new();
    let (r, w) = t.open_pipe(3, 4, 0, 0).unwrap();
    let d = t.duplicate(&w, 5, 0).unwrap();
    t.release(w);
    assert_eq!(t.entry(5).map(|e| e.end), Some(End::Write));
    t.release(d);
    assert!(!t.owns(4));
    assert!(!t.owns(5));
    assert_eq!(t.entry(3), Some(entry(3, End::Read)));
    assert_eq!(t.release(r), 3);
    assert!(!t.owns(3));
}

#[test]
fn every_owned_descriptor_is_close_on_exec() {
    let mut t = Descriptors::new();
    let (r, w) = t.open_pipe(3, 4, 0, 0).unwrap();
    let _d = t.duplicate(&w, 5, 0).unwrap();
    let _a = t.adopt(6, 0).unwrap();
    let _s = t.dup_stream(1, 7, 0).unwrap();
    for fd in 3..8 {
        assert_eq!(t.entry(fd).map(|e| e.cloexec), Some(true));
    }
    assert_eq!(r.as_raw_fd(), 3);
}

#[test]
fn release_leaves_other_entries() {
    let mut t = Descriptors::new();
    let (r, w) = t.open_pipe(3, 4, 0, 0).unwrap();
    let a = t.adopt(9, 0).unwrap();
    assert_eq!(t.release(r), 3);
    assert!(!t.owns(3));
    assert_eq!(t.entry(4), Some(entry(3, End::Write)));
    assert_eq!(t.entry(9), Some(unknown()));
    // The number can be owned again once the operating system reuses it.
    let a2 = t.adopt(3, 0).unwrap();
    assert_eq!(t.entry(3), Some(unknown()));
    assert_eq!(a2.as_raw_fd(), 3);
    assert_eq!(a.as_raw_fd(), 9);
    assert_eq!(w.as_raw_fd(), 4);
}

#[test]
fn repeated_cycles_leave_nothing_owned() {
    let mut t = Descriptors::new();
    for _ in 0..100 {
        let (r, w) = t.open_pipe(3, 4, 0, 0).unwrap();
        let d = t.duplicate(&w, 5, 0).unwrap();
        assert_eq!(t.release(r), 3);
        assert_eq!(t.release(w), 4);
        assert_eq!(t.release(d), 5);
        for fd in 3..6 {
            assert!(!t.owns(fd));
        }
    }
    assert!(t.has_fresh_object());
}
