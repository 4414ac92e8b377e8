//! Tests for the validated header-field types, the sanitizing functions and
//! the priority computation.

use syslog5424::generate_priority;
use syslog5424::types::{
    escape_val, remove_invalid, AppName, Facility, HostName, MessageId, ProcessId, Severity,
};
use syslog5424::{Error, WriteFormat};

#[test]
fn defaults_are_nil_and_unframed() {
    assert_eq!("-", HostName::default().0);
    assert_eq!("-", AppName::default().0);
    assert_eq!("-", ProcessId::default().0);
    assert_eq!("-", MessageId::default().0);
    assert!(matches!(Facility::default(), Facility::User));
    assert_eq!(WriteFormat::RFC5424, WriteFormat::default());
}

#[test]
fn empty_field_rejected() {
    assert!(matches!(HostName::new(""), Err(Error::FieldEmpty)));
    assert!(matches!(AppName::new(""), Err(Error::FieldEmpty)));
    assert!(matches!(ProcessId::new(""), Err(Error::FieldEmpty)));
    assert!(matches!(MessageId::new(""), Err(Error::FieldEmpty)));
}

#[test]
fn non_graphic_field_rejected() {
    // a space is printable but not graphic
    assert!(matches!(
        HostName::new("host name"),
        Err(Error::InvalidCharacters)
    ));
    // a control character
    assert!(matches!(
        AppName::new("app\tname"),
        Err(Error::InvalidCharacters)
    ));
    // DEL is just past the graphic range
    assert!(matches!(
        ProcessId::new("\u{7f}"),
        Err(Error::InvalidCharacters)
    ));
    // non-ASCII
    assert!(matches!(
        MessageId::new("n\u{e4}me"),
        Err(Error::InvalidCharacters)
    ));
}

#[test]
fn too_long_field_rejected() {
    let long = "x".repeat(256);
    assert!(matches!(HostName::new(&long), Err(Error::FieldTooLong)));
    assert!(matches!(HostName::new(&"x".repeat(255)), Ok(_)));
    assert!(matches!(
        AppName::new(&"x".repeat(49)),
        Err(Error::FieldTooLong)
    ));
    assert!(matches!(AppName::new(&"x".repeat(48)), Ok(_)));
    assert!(matches!(
        ProcessId::new(&"x".repeat(129)),
        Err(Error::FieldTooLong)
    ));
    assert!(matches!(ProcessId::new(&"x".repeat(128)), Ok(_)));
    assert!(matches!(
        MessageId::new(&"x".repeat(33)),
        Err(Error::FieldTooLong)
    ));
    assert!(matches!(MessageId::new(&"x".repeat(32)), Ok(_)));
}

#[test]
fn valid_field_unchanged() {
    let h = HostName::new("server1.example.com").unwrap();
    assert_eq!("server1.example.com", h.0);
    // the emptiness check comes before the character check
    assert!(matches!(HostName::new(""), Err(Error::FieldEmpty)));
    // the character check comes before the length check
    let long_and_spaced = format!("{} {}", "x".repeat(200), "y".repeat(200));
    assert!(matches!(
        HostName::new(&long_and_spaced),
        Err(Error::InvalidCharacters)
    ));
}

#[test]
fn escape_single_pass() {
    assert_eq!(r#"a\\b"#, escape_val(r#"a\b"#));
    assert_eq!(r#"a\"b"#, escape_val(r#"a"b"#));
    assert_eq!(r#"a\]b"#, escape_val(r#"a]b"#));
    // all three trigger characters in one value, each escaped once
    assert_eq!(r#"\\x\"y\]z"#, escape_val(r#"\x"y]z"#));
    // an opening bracket is left alone
    assert_eq!("[v", escape_val("[v"));
    assert_eq!("", escape_val(""));
}

#[test]
fn escape_not_idempotent() {
    // re-escaping doubles backslashes: escaping is not idempotent
    let once = escape_val("\\");
    let twice = escape_val(&once);
    assert_eq!("\\\\", once);
    assert_eq!("\\\\\\\\", twice);
    assert_ne!(once, twice);
}

#[test]
fn remove_invalid_filters() {
    assert_eq!("abcd", remove_invalid("a=b c]d\""));
    assert_eq!("", remove_invalid(""));
    assert_eq!("", remove_invalid(" =]\""));
    // non-graphic and non-ASCII characters are removed
    assert_eq!("nave", remove_invalid("na\u{ef}ve"));
    assert_eq!("tab", remove_invalid("t\ta\nb"));
}

#[test]
fn remove_invalid_truncates() {
    let long = "a".repeat(40);
    assert_eq!("a".repeat(32), remove_invalid(&long));
    assert_eq!(32, remove_invalid(&long).chars().count());
    // filtering happens before truncation
    let spaced = "a ".repeat(40);
    assert_eq!("a".repeat(32), remove_invalid(&spaced));
    let exact = "b".repeat(32);
    assert_eq!(exact, remove_invalid(&exact));
}

#[test]
fn priority_user_error() {
    // facility * 8 + severity: User=1, Error=3 gives 11
    assert_eq!("<11>", generate_priority(Facility::User, Severity::Error));
    assert_eq!("<0>", generate_priority(Facility::Kernel, Severity::Emergency));
    assert_eq!("<191>", generate_priority(Facility::Local7, Severity::Debug));
    assert_eq!("<165>", generate_priority(Facility::Local4, Severity::Notice));
}
