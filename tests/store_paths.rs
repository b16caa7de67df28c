use luxo::error::Error;
use luxo::key::{check_key, KeyEncodingError};
use luxo::store::{plan_root, FolderBackedLuxo, RootAction, RootEntry};

fn store(root: &str) -> FolderBackedLuxo {
    FolderBackedLuxo::new(root.as_bytes().to_vec())
}

#[test]
fn example_key_path() {
    let s = store("/data/store");
    let p = s.key_path(b"user:42").unwrap();
    assert_eq!(p, b"/data/store/user:42.key".to_vec());
    let q = s.key_path(b"user:43").unwrap();
    assert_eq!(q, b"/data/store/user:43.key".to_vec());
}

#[test]
fn root_with_trailing_separator() {
    let s = store("/");
    assert_eq!(s.key_path(b"k").unwrap(), b"/k.key".to_vec());
    assert_eq!(s.folder(), b"/");
}

#[test]
fn empty_key_is_valid_text() {
    let s = store("/data");
    assert_eq!(s.key_path(b"").unwrap(), b"/data/.key".to_vec());
}

#[test]
fn distinct_keys_distinct_paths() {
    let s = store("/data");
    assert_ne!(s.key_path(b"a").unwrap(), s.key_path(b"b").unwrap());
    assert_ne!(s.key_path(b"a.key").unwrap(), s.key_path(b"a").unwrap());
}

#[test]
fn invalid_key_rejected_by_read_path() {
    let s = store("/data/store");
    match s.key_path(b"ab\xff") {
        Err(Error::Utf8Error(e)) => assert_eq!(e, KeyEncodingError { valid_up_to: 2 }),
        other => panic!("unexpected {:?}", other),
    }
}

#[test]
fn multibyte_keys_accepted() {
    assert!(check_key("é".as_bytes()).is_ok());
    assert!(check_key("日本".as_bytes()).is_ok());
    assert!(check_key("🎉x".as_bytes()).is_ok());
    assert!(check_key(b"\x7f").is_ok());
    assert!(check_key(b"\xf4\x8f\xbf\xbf").is_ok());
}

#[test]
fn malformed_keys_rejected() {
    assert_eq!(check_key(b"\xc0\xaf"), Err(KeyEncodingError { valid_up_to: 0 }));
    assert_eq!(check_key(b"a\xed\xa0\x80"), Err(KeyEncodingError { valid_up_to: 1 }));
    assert_eq!(check_key(b"\xf4\x90\x80\x80"), Err(KeyEncodingError { valid_up_to: 0 }));
    assert_eq!(check_key(b"ok\xe6\x97"), Err(KeyEncodingError { valid_up_to: 2 }));
    assert_eq!(check_key("é".as_bytes()[..1].as_ref()), Err(KeyEncodingError { valid_up_to: 0 }));
    assert_eq!(check_key(b"\x80"), Err(KeyEncodingError { valid_up_to: 0 }));
}

#[test]
fn valid_up_to_matches_std() {
    let cases: [&[u8]; 4] = [b"abc\xffdef", b"\xe2\x82\xac\xe2\x82", b"x\xf0\x9f\x98", b"\xc3\xa9\xc3"];
    for c in cases {
        let ours = check_key(c).unwrap_err().valid_up_to;
        let theirs = std::str::from_utf8(c).unwrap_err().valid_up_to();
        assert_eq!(ours, theirs);
    }
}

#[test]
fn root_missing_is_created() {
    assert_eq!(plan_root(RootEntry::Missing), RootAction::Create);
}

#[test]
fn root_directory_is_used() {
    assert_eq!(plan_root(RootEntry::Directory), RootAction::Use);
}

#[test]
fn root_other_is_rejected() {
    assert_eq!(plan_root(RootEntry::Other), RootAction::Reject);
}

#[test]
fn construction_twice_same_behaviour() {
    let a = store("/data/store");
    let b = store("/data/store");
    assert_eq!(a.key_path(b"k").unwrap(), b.key_path(b"k").unwrap());
    assert_eq!(a.folder(), b.folder());
    // a created root is a directory, used as it is the second time
    assert_eq!(plan_root(RootEntry::Directory), RootAction::Use);
}

#[test]
fn error_from_conversions() {
    let e: Error = std::io::Error::new(std::io::ErrorKind::NotFound, "missing").into();
    match e {
        Error::Io(inner) => assert_eq!(inner.kind(), std::io::ErrorKind::NotFound),
        other => panic!("unexpected {:?}", other),
    }
    let k: Error = KeyEncodingError { valid_up_to: 3 }.into();
    assert!(matches!(k, Error::Utf8Error(KeyEncodingError { valid_up_to: 3 })));
}
