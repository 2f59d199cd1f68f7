use actix_extract_multipart::decoder::{decode, replay, DecodeError, Decoder, Event};
use actix_extract_multipart::document::Document;
use actix_extract_multipart::file::{FileType, MediaType};
use actix_extract_multipart::schema::{BindError, Field, Kind, Shape};
use actix_extract_multipart::value::{Persisted, Value};

fn begin(name: &str, file_name: Option<&str>, media: Option<(&str, &str)>) -> Event {
    Event::Begin {
        name: name.to_string(),
        file_name: file_name.map(|f| f.to_string()),
        media: media.map(|(a, b)| MediaType { primary: a.to_string(), secondary: b.to_string() }),
    }
}

fn scalar(name: &str, text: &str) -> Vec<Event> {
    vec![begin(name, None, None), Event::Chunk(text.as_bytes().to_vec()), Event::End(Persisted::NotAttempted)]
}

fn numbers(v: Option<&Value>) -> Vec<isize> {
    match v {
        Some(Value::Sequence(items)) => items
            .iter()
            .map(|i| match i {
                Value::Number(n) => *n,
                other => panic!("not a number: {:?}", other),
            })
            .collect(),
        other => panic!("not a sequence: {:?}", other),
    }
}

fn keys(d: &Document) -> Vec<String> {
    d.entries().iter().map(|e| e.key.clone()).collect()
}

#[test]
fn replaying_a_recorded_stream_gives_the_same_document() {
    let mut events = scalar("a", "1");
    events.push(begin("f", Some("x.bin"), Some(("image", "png"))));
    events.push(Event::Chunk(vec![1, 2, 3]));
    events.push(Event::End(Persisted::At("store/x.bin".to_string())));
    events.extend(scalar("tag[]", "true"));
    let first = replay(events.clone());
    let second = replay(events);
    assert_eq!(format!("{:?}", first.document()), format!("{:?}", second.document()));
    assert_eq!(first.worklist(), second.worklist());
}

#[test]
fn empty_file_adds_no_key_and_asks_for_no_persistence() {
    let mut d = Decoder::new();
    d.begin_part("file_param".to_string(), Some("fn.txt".to_string()), None);
    d.push_chunk(&[]);
    assert!(d.pending_file().is_none());
    d.end_part(Persisted::At("should-not-appear".to_string()));
    assert_eq!(d.document().len(), 0);
    assert!(d.worklist().is_empty());
}

#[test]
fn non_empty_file_is_offered_for_persistence() {
    let mut d = Decoder::new();
    d.begin_part(
        "img".to_string(),
        Some("a.png".to_string()),
        Some(MediaType { primary: "image".to_string(), secondary: "png".to_string() }),
    );
    d.push_chunk(b"ab");
    d.push_chunk(b"cde");
    let infos = d.pending_file().expect("a file to persist");
    assert_eq!(infos.file_type, Some(FileType::ImagePNG));
    assert_eq!(infos.filename, "a.png");
    assert_eq!(infos.weight, 5);
    assert_eq!(infos.data, b"abcde".to_vec());
    d.end_part(Persisted::At("bucket/a.png".to_string()));
    assert_eq!(d.worklist(), &vec!["bucket/a.png".to_string()]);
    match d.document().get("img") {
        Some(Value::File(f)) => {
            assert_eq!(f.file_type(), "imagepng");
            assert_eq!(f.name(), "a.png");
            assert_eq!(f.len(), 5);
            assert_eq!(f.data(), &b"abcde".to_vec());
            assert_eq!(f.persisted, Persisted::At("bucket/a.png".to_string()));
        }
        other => panic!("unexpected: {:?}", other),
    }
}

#[test]
fn failed_persistence_leaves_a_null_locator() {
    let mut d = Decoder::new();
    d.begin_part("doc".to_string(), Some("a.pdf".to_string()), Some(MediaType {
        primary: "application".to_string(),
        secondary: "pdf".to_string(),
    }));
    d.push_chunk(b"%PDF");
    d.end_part(Persisted::NoLocator);
    assert!(d.worklist().is_empty());
    match d.document().get("doc") {
        Some(Value::File(f)) => assert_eq!(f.persisted, Persisted::NoLocator),
        other => panic!("unexpected: {:?}", other),
    }
}

#[test]
fn grouped_fields_bind_in_arrival_order() {
    let mut events = scalar("tag[]", "1");
    events.extend(scalar("tag[]", "2"));
    events.extend(scalar("tag[]", "3"));
    let d = replay(events);
    assert_eq!(numbers(d.document().get("tag")), vec![1, 2, 3]);
}

#[test]
fn single_grouped_field_binds_to_one_element_sequence() {
    let d = replay(scalar("tag[]", "1"));
    assert_eq!(numbers(d.document().get("tag")), vec![1]);
    let shape = Shape {
        fields: vec![Field {
            name: "tag".to_string(),
            kind: Kind::List(Box::new(Kind::Integer { min: 0, max: 10 })),
            optional: false,
        }],
    };
    assert!(decode(scalar("tag[]", "1"), shape).is_ok());
}

#[test]
fn rollback_worklist_lists_persisted_files_in_order() {
    let mut events = vec![begin("a", Some("a.txt"), Some(("text", "plain")))];
    events.push(Event::Chunk(b"aaa".to_vec()));
    events.push(Event::End(Persisted::At("L1".to_string())));
    events.push(begin("b", Some("b.txt"), Some(("text", "plain"))));
    events.push(Event::Chunk(b"bbb".to_vec()));
    events.push(Event::End(Persisted::At("L2".to_string())));
    events.extend(scalar("count", "not a number"));
    let shape = Shape {
        fields: vec![
            Field { name: "a".to_string(), kind: Kind::File, optional: false },
            Field { name: "b".to_string(), kind: Kind::File, optional: false },
            Field { name: "count".to_string(), kind: Kind::Integer { min: 0, max: 100 }, optional: false },
        ],
    };
    match decode(events, shape) {
        Err((DecodeError::SchemaMismatch(BindError::TypeMismatch(name)), worklist)) => {
            assert_eq!(name, "count");
            assert_eq!(worklist, vec!["L1".to_string(), "L2".to_string()]);
        }
        other => panic!("unexpected: {:?}", other),
    }
}

#[test]
fn chunk_failure_nulls_only_its_field() {
    let mut events = scalar("first", "1");
    events.push(begin("second", Some("s.txt"), Some(("text", "plain"))));
    events.push(Event::Chunk(b"par".to_vec()));
    events.push(Event::ChunkFailed);
    events.extend(scalar("third", "hello"));
    let d = replay(events);
    assert_eq!(keys(d.document()), vec!["first", "second", "third"]);
    assert!(matches!(d.document().get("first"), Some(Value::Number(1))));
    assert!(matches!(d.document().get("second"), Some(Value::Null)));
    assert!(matches!(d.document().get("third"), Some(Value::Text(ref s)) if s == "hello"));
}

#[test]
fn chunk_failure_in_grouped_field_sets_null_not_append() {
    let mut events = scalar("tag[]", "1");
    events.push(begin("tag[]", None, None));
    events.push(Event::ChunkFailed);
    let d = replay(events);
    assert!(matches!(d.document().get("tag"), Some(Value::Null)));
}

#[test]
fn optional_field_bound_to_null_is_absent() {
    let mut events = vec![begin("file_param", Some("f.txt"), None), Event::Chunk(b"x".to_vec()), Event::ChunkFailed];
    events.extend(scalar("n", "3"));
    let shape = Shape {
        fields: vec![
            Field { name: "file_param".to_string(), kind: Kind::File, optional: true },
            Field { name: "n".to_string(), kind: Kind::Integer { min: 0, max: 5 }, optional: false },
        ],
    };
    let record = decode(events, shape).expect("binds");
    assert!(record.get("file_param").is_none());
    assert!(matches!(record.get("n"), Some(Value::Number(3))));
    assert!(record.get("undeclared").is_none());
}

#[test]
fn scalar_chunks_are_joined() {
    let events = vec![
        begin("n", None, None),
        Event::Chunk(b"12".to_vec()),
        Event::Chunk(b"34".to_vec()),
        Event::End(Persisted::NotAttempted),
    ];
    let d = replay(events);
    assert!(matches!(d.document().get("n"), Some(Value::Number(1234))));
}

#[test]
fn scenario_binds_with_file_of_four_bytes() {
    let mut events = scalar("first_param", "A simple test");
    events.extend(scalar("u32_param", "56"));
    events.extend(scalar("i32_param", "-12"));
    events.push(begin("file_param", Some("fn.txt"), Some(("text", "plain"))));
    events.push(Event::Chunk(b"test".to_vec()));
    events.push(Event::End(Persisted::NotAttempted));
    let shape = Shape {
        fields: vec![
            Field { name: "first_param".to_string(), kind: Kind::Text, optional: false },
            Field { name: "u32_param".to_string(), kind: Kind::Integer { min: 0, max: u32::MAX as i128 }, optional: false },
            Field {
                name: "i32_param".to_string(),
                kind: Kind::Integer { min: i32::MIN as i128, max: i32::MAX as i128 },
                optional: false,
            },
            Field { name: "file_param".to_string(), kind: Kind::File, optional: false },
        ],
    };
    let record = decode(events, shape).expect("binds");
    assert!(matches!(record.get("first_param"), Some(Value::Text(ref s)) if s == "A simple test"));
    assert!(matches!(record.get("u32_param"), Some(Value::Number(56))));
    assert!(matches!(record.get("i32_param"), Some(Value::Number(-12))));
    match record.get("file_param") {
        Some(Value::File(f)) => {
            assert_eq!(f.len(), 4);
            assert_eq!(f.file_type(), "textplain");
        }
        other => panic!("unexpected: {:?}", other),
    }
}

#[test]
fn naming_violation_keeps_persisted_locators() {
    let events = vec![
        begin("f", Some("1.txt"), None),
        Event::Chunk(b"1".to_vec()),
        Event::End(Persisted::At("L1".to_string())),
        begin("f", Some("2.txt"), None),
        Event::Chunk(b"2".to_vec()),
        Event::End(Persisted::At("L2".to_string())),
    ];
    let shape = Shape { fields: vec![] };
    match decode(events, shape) {
        Err((DecodeError::NamingConventionViolation(key), worklist)) => {
            assert_eq!(key, "f");
            assert_eq!(worklist, vec!["L1".to_string(), "L2".to_string()]);
        }
        other => panic!("unexpected: {:?}", other),
    }
}

#[test]
fn open_part_at_the_end_is_dropped() {
    let mut events = scalar("a", "1");
    events.push(begin("b", None, None));
    events.push(Event::Chunk(b"2".to_vec()));
    let d = replay(events);
    assert_eq!(keys(d.document()), vec!["a"]);
    let (doc, worklist, violation) = d.into_parts();
    assert_eq!(doc.len(), 1);
    assert!(worklist.is_empty());
    assert!(violation.is_none());
}

#[test]
fn empty_stream_binds_only_optional_fields() {
    let optional = Shape { fields: vec![Field { name: "x".to_string(), kind: Kind::Text, optional: true }] };
    let record = decode(vec![], optional).expect("binds");
    assert!(record.get("x").is_none());
    let required = Shape { fields: vec![Field { name: "x".to_string(), kind: Kind::Text, optional: false }] };
    match decode(vec![], required) {
        Err((DecodeError::SchemaMismatch(BindError::MissingField(name)), worklist)) => {
            assert_eq!(name, "x");
            assert!(worklist.is_empty());
        }
        other => panic!("unexpected: {:?}", other),
    }
}
