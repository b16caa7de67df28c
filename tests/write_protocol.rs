use luxo::error::Error;
use luxo::key::KeyEncodingError;
use luxo::store::FolderBackedLuxo;
use luxo::write::{WriteSession, WriteStep};

fn store() -> FolderBackedLuxo {
    FolderBackedLuxo::new(b"/data/store".to_vec())
}

fn fail() -> std::io::Error {
    std::io::Error::new(std::io::ErrorKind::Other, "disk full")
}

fn session(key: &[u8]) -> WriteSession {
    store().begin_write(key).unwrap()
}

#[test]
fn example_write_returns_length() {
    let mut s = session(b"user:42");
    assert_eq!(s.temp_path(), b"/data/store/user:42.key.tmp");
    assert_eq!(s.target_path(), b"/data/store/user:42.key");
    assert_eq!(s.step(), WriteStep::CreateTemp);
    assert!(s.complete(Ok(0)).is_none());
    assert_eq!(s.step(), WriteStep::CopyValue);
    assert!(s.complete(Ok(5)).is_none());
    assert_eq!(s.step(), WriteStep::Flush);
    assert!(s.complete(Ok(0)).is_none());
    assert_eq!(s.step(), WriteStep::Sync);
    assert!(s.complete(Ok(0)).is_none());
    assert_eq!(s.step(), WriteStep::Rename);
    match s.complete(Ok(0)) {
        Some(Ok(n)) => assert_eq!(n, 5),
        other => panic!("unexpected {:?}", other),
    }
    assert_eq!(s.step(), WriteStep::Finished);
}

#[test]
fn empty_value_reports_zero() {
    let mut s = session(b"k");
    for _ in 0..4 {
        assert!(s.complete(Ok(0)).is_none());
    }
    assert!(matches!(s.complete(Ok(0)), Some(Ok(0))));
}

#[test]
fn crash_before_rename_leaves_rename_pending() {
    let mut s = session(b"user:42");
    assert!(s.complete(Ok(0)).is_none());
    assert!(s.complete(Ok(11)).is_none());
    assert!(s.complete(Ok(0)).is_none());
    assert!(s.complete(Ok(0)).is_none());
    // the process stops here: the key's file has not been touched yet
    assert_eq!(s.step(), WriteStep::Rename);
}

#[test]
fn copy_failure_aborts() {
    let mut s = session(b"k");
    assert!(s.complete(Ok(0)).is_none());
    match s.complete(Err(fail())) {
        Some(Err(Error::Io(e))) => assert_eq!(e.kind(), std::io::ErrorKind::Other),
        other => panic!("unexpected {:?}", other),
    }
    assert_eq!(s.step(), WriteStep::Aborted);
}

#[test]
fn sync_failure_aborts() {
    let mut s = session(b"k");
    assert!(s.complete(Ok(0)).is_none());
    assert!(s.complete(Ok(3)).is_none());
    assert!(s.complete(Ok(0)).is_none());
    assert!(matches!(s.complete(Err(fail())), Some(Err(Error::Io(_)))));
    assert_eq!(s.step(), WriteStep::Aborted);
}

#[test]
fn rename_failure_aborts() {
    let mut s = session(b"k");
    for _ in 0..4 {
        assert!(s.complete(Ok(7)).is_none());
    }
    assert!(matches!(s.complete(Err(fail())), Some(Err(Error::Io(_)))));
    assert_eq!(s.step(), WriteStep::Aborted);
}

#[test]
fn create_failure_aborts() {
    let mut s = session(b"k");
    assert!(matches!(s.complete(Err(fail())), Some(Err(Error::Io(_)))));
    assert_eq!(s.step(), WriteStep::Aborted);
}

#[test]
fn invalid_key_starts_no_write() {
    match store().begin_write(b"\xffkey") {
        Err(Error::Utf8Error(e)) => assert_eq!(e, KeyEncodingError { valid_up_to: 0 }),
        Err(other) => panic!("unexpected {:?}", other),
        Ok(_) => panic!("a write started"),
    }
}

#[test]
fn temp_and_key_paths_differ() {
    let s = session(b"a");
    assert_ne!(s.temp_path(), s.target_path());
    let t = session(b"a.key");
    assert_ne!(t.target_path(), s.temp_path());
}
