use tokount::errors::{check_invocation, check_root, FatalError};
use tokount::utf8::is_valid_utf8;

#[test]
fn missing_path_argument_is_invalid_args() {
    assert_eq!(check_invocation(0), Err(FatalError::InvalidArgs));
    assert_eq!(check_invocation(1), Err(FatalError::InvalidArgs));
    assert_eq!(check_invocation(2), Ok(()));
    assert_eq!(check_invocation(3), Ok(()));
}

#[test]
fn missing_root_is_not_found() {
    assert_eq!(check_root(false, false), Err(FatalError::NotFound));
    assert_eq!(check_root(false, true), Err(FatalError::NotFound));
}

#[test]
fn unreadable_root_metadata_is_io_error() {
    assert_eq!(check_root(true, false), Err(FatalError::IoError));
    assert_eq!(check_root(true, true), Ok(()));
}

#[test]
fn error_kinds_have_wire_names() {
    assert_eq!(FatalError::InvalidArgs.kind(), "InvalidArgs");
    assert_eq!(FatalError::NotFound.kind(), "NotFound");
    assert_eq!(FatalError::IoError.kind(), "IoError");
}

#[test]
fn ascii_and_multibyte_sequences_are_valid() {
    assert!(is_valid_utf8(b""));
    assert!(is_valid_utf8(b"plain ascii\n"));
    assert!(is_valid_utf8("caf\u{e9} \u{4e2d}\u{6587} \u{1f600}".as_bytes()));
}

#[test]
fn malformed_sequences_are_refused() {
    assert!(!is_valid_utf8(b"\xFF"));
    assert!(!is_valid_utf8(b"\xC3"));
    assert!(!is_valid_utf8(b"\xC0\xAF"));
    assert!(!is_valid_utf8(b"\xED\xA0\x80"));
    assert!(!is_valid_utf8(b"\xF4\x90\x80\x80"));
    assert!(!is_valid_utf8(b"\xE2\x82"));
    assert!(!is_valid_utf8(b"abc\x80"));
}

#[test]
fn validity_agrees_with_the_standard_library() {
    let cases: Vec<&[u8]> = vec![
        b"",
        b"abc",
        b"\xC2\x80",
        b"\xC1\xBF",
        b"\xE0\xA0\x80",
        b"\xE0\x9F\xBF",
        b"\xED\x9F\xBF",
        b"\xF0\x90\x80\x80",
        b"\xF0\x8F\xBF\xBF",
        b"\xF4\x8F\xBF\xBF",
        b"mix\xC3\xA9d\n",
    ];
    for c in cases {
        assert_eq!(is_valid_utf8(c), std::str::from_utf8(c).is_ok());
    }
}
