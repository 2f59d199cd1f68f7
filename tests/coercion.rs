use actix_extract_multipart::coerce::{coerce_scalar, coerce_text, parse_integer};
use actix_extract_multipart::document::split_field_name;
use actix_extract_multipart::file::{FileType, MediaType};
use actix_extract_multipart::text::same_text;
use actix_extract_multipart::value::Value;

#[test]
fn digits_become_numbers() {
    assert!(matches!(coerce_scalar(b"56"), Value::Number(56)));
    assert!(matches!(coerce_scalar(b"-12"), Value::Number(-12)));
    assert!(matches!(coerce_scalar(b"0"), Value::Number(0)));
    assert!(matches!(coerce_scalar(b"-0"), Value::Number(0)));
    assert!(matches!(coerce_scalar(b"007"), Value::Number(7)));
}

#[test]
fn booleans_are_case_sensitive() {
    assert!(matches!(coerce_scalar(b"true"), Value::Bool(true)));
    assert!(matches!(coerce_scalar(b"false"), Value::Bool(false)));
    assert!(matches!(coerce_scalar(b"True"), Value::Text(ref s) if s == "True"));
    assert!(matches!(coerce_scalar(b"FALSE"), Value::Text(ref s) if s == "FALSE"));
}

#[test]
fn invalid_utf8_becomes_null() {
    assert!(matches!(coerce_scalar(&[0xff, 0xfe, 0x41]), Value::Null));
    assert!(matches!(coerce_scalar(&[0xc3]), Value::Null));
}

#[test]
fn other_text_is_kept_verbatim() {
    for text in ["A simple test", "1.5", "0x1f", " 5", "5 ", "+5", "-", "", "1e3", "--1"] {
        match coerce_scalar(text.as_bytes()) {
            Value::Text(s) => assert_eq!(s, text),
            other => panic!("{:?} coerced to {:?}", text, other),
        }
    }
}

#[test]
fn non_ascii_text_is_decoded() {
    match coerce_scalar("héllo".as_bytes()) {
        Value::Text(s) => assert_eq!(s, "héllo"),
        other => panic!("unexpected: {:?}", other),
    }
}

#[test]
fn integer_limits() {
    let max = isize::MAX.to_string();
    let min = isize::MIN.to_string();
    assert_eq!(parse_integer(&max), Some(isize::MAX));
    assert_eq!(parse_integer(&min), Some(isize::MIN));
    let above = (isize::MAX as i128 + 1).to_string();
    let below = (isize::MIN as i128 - 1).to_string();
    assert_eq!(parse_integer(&above), None);
    assert_eq!(parse_integer(&below), None);
    assert_eq!(parse_integer("99999999999999999999999999999999999999"), None);
    assert!(matches!(coerce_text(&above), Value::Text(ref s) if *s == above));
}

#[test]
fn coercion_is_deterministic() {
    for text in ["56", "-12", "true", "x"] {
        let a = format!("{:?}", coerce_text(text));
        let b = format!("{:?}", coerce_text(text));
        assert_eq!(a, b);
    }
}

#[test]
fn field_names_lose_a_trailing_group_suffix() {
    assert_eq!(split_field_name("tag[]"), ("tag".to_string(), true));
    assert_eq!(split_field_name("tag"), ("tag".to_string(), false));
    assert_eq!(split_field_name("a[]b"), ("a[]b".to_string(), false));
    assert_eq!(split_field_name("[]"), ("".to_string(), true));
    assert_eq!(split_field_name("x[][]"), ("x[]".to_string(), true));
}

#[test]
fn media_tokens_are_normalized() {
    let m = MediaType { primary: "application".to_string(), secondary: "vnd.oasis.opendocument.text".to_string() };
    assert_eq!(m.token(), "applicationvndoasisopendocumenttext");
    let m = MediaType { primary: "Image".to_string(), secondary: "X_Icon-Big".to_string() };
    assert_eq!(m.token(), "imagexiconbig");
    let m = MediaType { primary: "text".to_string(), secondary: "plain".to_string() };
    assert_eq!(m.token(), "textplain");
}

#[test]
fn file_types_are_read_from_tokens() {
    assert_eq!(FileType::from_token("imagepng"), Some(FileType::ImagePNG));
    assert_eq!(FileType::from_token("imagejpeg"), Some(FileType::ImageJPEG));
    assert_eq!(FileType::from_token("applicationpdf"), Some(FileType::ApplicationPDF));
    assert_eq!(
        FileType::from_token("applicationvndoasisopendocumenttext"),
        Some(FileType::ApplicationVNDOasisOpendocumentText)
    );
    assert_eq!(FileType::from_token("textplain"), None);
    assert_eq!(FileType::from_token("image/png"), None);
}

#[test]
fn same_text_compares_characters() {
    assert!(same_text("abc", "abc"));
    assert!(!same_text("abc", "abd"));
    assert!(!same_text("abc", "ab"));
    assert!(same_text("", ""));
}
