//! End-to-end formatting tests: the assembled message for configurations and
//! events of every shape, in both the bare and the length-prefixed format.

use syslog5424::iana::{Origin, TimeQuality};
use syslog5424::types::{Facility, Message, Severity};
use syslog5424::{Rfc5424Builder, Rfc5424Data, StructuredData, WriteFormat};

const BOM: [u8; 3] = [0xEF, 0xBB, 0xBF];

#[derive(Debug)]
struct Rfc5424Message {
    pub severity: Severity,
    pub structured_data: Option<StructuredData>,
    pub message: Option<Message>,
}

impl Rfc5424Data for Rfc5424Message {
    fn severity(&self) -> Severity {
        self.severity
    }

    fn timestamp(&self) -> Option<String> {
        None
    }

    fn structured_data(&self) -> Option<StructuredData> {
        self.structured_data.clone()
    }

    fn message(&self) -> Option<Message> {
        self.message.clone()
    }
}

/// generate a vec with the BOM added
/// `structured` should not end with a space
/// `message` should not start with a space
fn test_vec(structured: &str, message: Option<&str>) -> Vec<u8> {
    let mut out = Vec::new();
    out.extend(structured.trim().as_bytes());

    if let Some(s) = message {
        out.push(b' ');
        out.extend(BOM.iter());
        out.extend(s.trim().as_bytes());
    }
    out
}

fn sd(entries: Vec<(&str, Vec<(&str, &str)>)>) -> StructuredData {
    entries
        .into_iter()
        .map(|(id, pairs)| {
            (
                id.to_string(),
                pairs
                    .into_iter()
                    .map(|(n, v)| (n.to_string(), v.to_string()))
                    .collect(),
            )
        })
        .collect()
}

#[test]
fn write_something() {
    let hmap = sd(vec![("hello", vec![("id", "alpha9"), ("progress", "complete")])]);

    let msg = Rfc5424Message {
        severity: Severity::Error,
        structured_data: Some(hmap),
        message: Some(Message::Text("sample message. Hello there!".into())),
    };
    let f = Rfc5424Builder::new("ent_id", Facility::User)
        .app_name("my_app_name")
        .unwrap()
        .hostname("server1.example.com")
        .unwrap()
        .msg_id("msg_id")
        .unwrap()
        .pid("5445")
        .unwrap()
        .write_format(WriteFormat::RFC5425)
        .build();

    let mut out = Vec::new();
    f.format(&mut out, &msg).unwrap();
    let s = String::from_utf8(out).unwrap();
    println!("{}", s);
    assert_eq!(
        String::from_utf8(test_vec(
            r#"130 <11>1 - server1.example.com my_app_name 5445 msg_id [hello@ent_id id="alpha9" progress="complete"]"#,
            Some("sample message. Hello there!")
        ))
        .unwrap(),
        s
    );
}

#[test]
fn message_only() {
    let msg = Rfc5424Message {
        severity: Severity::Notice,
        structured_data: None,
        message: Some(Message::Text("%% It's time to make the do-nuts.".into())),
    };
    let f = Rfc5424Builder::new("ent_id", Facility::Local4)
        .app_name("myproc")
        .unwrap()
        .hostname("192.0.2.1")
        .unwrap()
        .pid("8710")
        .unwrap()
        .write_format(WriteFormat::RFC5424)
        .build();

    let mut out = Vec::new();
    f.format(&mut out, &msg).unwrap();
    let s = String::from_utf8(out).unwrap();
    println!("{}", s);
    assert_eq!(
        String::from_utf8(test_vec(
            r#"<165>1 - 192.0.2.1 myproc 8710 - -"#,
            Some("%% It's time to make the do-nuts.")
        ))
        .unwrap(),
        s
    );
}

#[test]
fn empty() {
    let msg = Rfc5424Message {
        severity: Severity::Debug,
        structured_data: None,
        message: None,
    };
    let f = Rfc5424Builder::new("ent_id", Facility::User).build();

    let mut out = Vec::new();
    f.format(&mut out, &msg).unwrap();
    let s = String::from_utf8(out).unwrap();
    println!("{}", s);
    assert_eq!(
        String::from_utf8(test_vec(r#"<15>1 - - - - - -"#, None)).unwrap(),
        s
    );
}

#[test]
fn rfc_examples() {
    let mut hmap = sd(vec![(
        "exampleSDID",
        vec![
            ("iut", "3"),
            ("eventSource", "Application"),
            ("eventID", "1011"),
        ],
    )]);

    let msg = Rfc5424Message {
        severity: Severity::Error,
        structured_data: Some(hmap.clone()),
        message: None,
    };
    let f = Rfc5424Builder::new("32473", Facility::User).build();

    let mut out = Vec::new();
    f.format(&mut out, &msg).unwrap();
    let s = String::from_utf8(out).unwrap();
    println!("{}", s);
    assert_eq!(
        String::from_utf8(test_vec(
            r#"<11>1 - - - - - [exampleSDID@32473 iut="3" eventSource="Application" eventID="1011"]"#,
            None
        ))
        .unwrap(),
        s
    );

    hmap.push((
        "examplePriority".to_string(),
        vec![("class".to_string(), "high".to_string())],
    ));
    let msg2 = Rfc5424Message {
        severity: Severity::Warning,
        structured_data: Some(hmap),
        message: None,
    };

    let mut out = Vec::new();
    f.format(&mut out, &msg2).unwrap();
    let s = String::from_utf8(out).unwrap();
    println!("{}", s);
    assert_eq!(
        String::from_utf8(test_vec(
            r#"<12>1 - - - - - [exampleSDID@32473 iut="3" eventSource="Application" eventID="1011"][examplePriority@32473 class="high"]"#,
            None
        ))
        .unwrap()
        .len(),
        s.len()
    );
}

#[test]
fn reserved_blocks() {
    let msg = Rfc5424Message {
        severity: Severity::Informational,
        structured_data: None,
        message: None,
    };
    let f = Rfc5424Builder::new("ent_id", Facility::User)
        .origin(Origin::Ip("192.0.2.1".to_string()))
        .origin(Origin::Software("logtool".to_string()))
        .time_quality(TimeQuality::TzKnown(true))
        .time_quality(TimeQuality::SyncAccuracy(1000))
        .build();

    let mut out = Vec::new();
    f.format(&mut out, &msg).unwrap();
    let s = String::from_utf8(out).unwrap();
    assert_eq!(
        r#"<14>1 - - - - - [origin ip="192.0.2.1" software="logtool"][timeQuality tzKnown="1" syncAccuracy="1000"]"#,
        s
    );
}

#[test]
fn time_quality_false_flags() {
    let msg = Rfc5424Message {
        severity: Severity::Debug,
        structured_data: None,
        message: None,
    };
    let f = Rfc5424Builder::new("ent_id", Facility::User)
        .time_quality(TimeQuality::TzKnown(false))
        .time_quality(TimeQuality::IsSynced(false))
        .time_quality(TimeQuality::IsSynced(true))
        .build();

    let mut out = Vec::new();
    f.format(&mut out, &msg).unwrap();
    let s = String::from_utf8(out).unwrap();
    assert_eq!(
        r#"<15>1 - - - - - [timeQuality tzKnown="0" isSynced="0" isSynced="1"]"#,
        s
    );
}

#[test]
fn origin_all_variants() {
    let msg = Rfc5424Message {
        severity: Severity::Debug,
        structured_data: None,
        message: None,
    };
    let f = Rfc5424Builder::new("ent_id", Facility::User)
        .origin(Origin::Ip("127.0.0.1".to_string()))
        .origin(Origin::EnterpriseId("32473".to_string()))
        .origin(Origin::Software("tool".to_string()))
        .origin(Origin::Version("12.2.1".to_string()))
        .build();

    let mut out = Vec::new();
    f.format(&mut out, &msg).unwrap();
    let s = String::from_utf8(out).unwrap();
    assert_eq!(
        r#"<15>1 - - - - - [origin ip="127.0.0.1" enterpriseId="32473" software="tool" swVersion="12.2.1"]"#,
        s
    );
}

#[test]
fn binary_body_no_marker() {
    let msg = Rfc5424Message {
        severity: Severity::Debug,
        structured_data: None,
        message: Some(Message::Binary(vec![0x01, 0xFF, 0x02])),
    };
    let f = Rfc5424Builder::new("ent_id", Facility::User).build();

    let mut out = Vec::new();
    f.format(&mut out, &msg).unwrap();
    let mut expected = b"<15>1 - - - - - - ".to_vec();
    expected.extend([0x01, 0xFF, 0x02]);
    assert_eq!(expected, out);
}

#[test]
fn empty_structured_data_is_nil() {
    // An event that supplies structured data with no elements renders no
    // element, so the section falls back to the nil sentinel: it is never
    // left as a true empty string.
    let msg = Rfc5424Message {
        severity: Severity::Debug,
        structured_data: Some(Vec::new()),
        message: None,
    };
    let f = Rfc5424Builder::new("ent_id", Facility::User).build();

    let mut out = Vec::new();
    f.format(&mut out, &msg).unwrap();
    assert_eq!(b"<15>1 - - - - - -".to_vec(), out);
}

#[test]
fn structured_data_sanitized_and_escaped() {
    let hmap = sd(vec![(
        "my id]",
        vec![("na me=", r#"va\lue "quoted" [brackets]"#)],
    )]);
    let msg = Rfc5424Message {
        severity: Severity::Debug,
        structured_data: Some(hmap),
        message: None,
    };
    let f = Rfc5424Builder::new("ent_id", Facility::User).build();

    let mut out = Vec::new();
    f.format(&mut out, &msg).unwrap();
    let s = String::from_utf8(out).unwrap();
    assert_eq!(
        "<15>1 - - - - - [myid@ent_id name=\"va\\\\lue \\\"quoted\\\" [brackets\\]\"]",
        s
    );
}

#[test]
fn format_twice_identical() {
    let hmap = sd(vec![("hello", vec![("id", "alpha9")])]);
    let msg = Rfc5424Message {
        severity: Severity::Error,
        structured_data: Some(hmap),
        message: Some(Message::Text("same every time".into())),
    };
    let f = Rfc5424Builder::new("ent_id", Facility::User)
        .hostname("host.example.com")
        .unwrap()
        .write_format(WriteFormat::RFC5425)
        .build();

    let mut first = Vec::new();
    f.format(&mut first, &msg).unwrap();
    let mut second = Vec::new();
    f.format(&mut second, &msg).unwrap();
    assert_eq!(first, second);
}

#[test]
fn framed_count_is_byte_length() {
    // Multi-byte text: the count must be in bytes, order marker included.
    let msg = Rfc5424Message {
        severity: Severity::Notice,
        structured_data: None,
        message: Some(Message::Text("h\u{e9}llo \u{2603}".into())),
    };
    let f = Rfc5424Builder::new("ent_id", Facility::User)
        .write_format(WriteFormat::RFC5425)
        .build();

    let mut out = Vec::new();
    f.format(&mut out, &msg).unwrap();
    let space = out.iter().position(|&b| b == b' ').unwrap();
    let count: usize = String::from_utf8(out[..space].to_vec())
        .unwrap()
        .parse()
        .unwrap();
    assert_eq!(count, out.len() - space - 1);
    // and the remainder ends with the marker plus the body's UTF-8 bytes
    let mut tail = vec![b' '];
    tail.extend(BOM.iter());
    tail.extend("h\u{e9}llo \u{2603}".as_bytes());
    assert!(out.ends_with(&tail));
}

#[test]
fn framed_empty_message() {
    let msg = Rfc5424Message {
        severity: Severity::Debug,
        structured_data: None,
        message: None,
    };
    let f = Rfc5424Builder::new("ent_id", Facility::User)
        .write_format(WriteFormat::RFC5425)
        .build();

    let mut out = Vec::new();
    f.format(&mut out, &msg).unwrap();
    let s = String::from_utf8(out).unwrap();
    assert_eq!("17 <15>1 - - - - - -", s);
}
