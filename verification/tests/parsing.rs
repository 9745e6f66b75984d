use quoth::parsable::{Everything, Exact, Nothing};
use quoth::{ParseStream, Spanned};

#[test]
fn test_parse_digit() {
    let mut stream = ParseStream::from("0183718947");
    assert_eq!(stream.parse_digit().unwrap(), 0);
    assert_eq!(stream.parse_digit().unwrap(), 1);
    assert_eq!(stream.parse_digit().unwrap(), 8);
    assert_eq!(stream.parse_digit().unwrap(), 3);
    assert_eq!(stream.parse_digit().unwrap(), 7);
    assert_eq!(stream.parse_digit().unwrap(), 1);
    assert_eq!(stream.parse_digit().unwrap(), 8);
    assert_eq!(stream.parse_digit().unwrap(), 9);
    assert_eq!(stream.parse_digit().unwrap(), 4);
    assert_eq!(stream.parse_digit().unwrap(), 7);
    stream.parse_digit().unwrap_err();
    let mut stream = ParseStream::from("hey");
    stream.parse_digit().unwrap_err();
}

#[test]
fn test_peeking() {
    let mut stream = ParseStream::from("hey 48734 is cool");
    assert!(stream.peek::<String>());
    assert!(stream.peek::<&str>());
    assert!(stream.peek::<&String>());
    assert_eq!(stream.peek::<Nothing>(), false);
    assert!(stream.peek::<Everything>());
    assert_eq!(
        stream.parse_value(Exact::from("hey ")).unwrap().to_string(),
        "hey "
    );
}

#[test]
fn test_parse_any_value_of() {
    let mut stream = ParseStream::from("this 99.2 is really cool");
    assert!(stream.peek_value(Exact::from("this")));
    assert!(stream.peek_value("this"));
    let parsed = stream
        .parse_any_value_of([
            Exact::from("yo"),
            Exact::from("this"),
            Exact::from("this 99.2"),
        ])
        .unwrap();
    assert_eq!(parsed.to_string(), "this");
    assert!(!stream.peek_value(Exact::from(" 998")));
    assert!(stream.peek_any_str_of([" 998", " 99.2"]));
    assert!(stream.peek_any_istr_of([" 99.2 z", " 99.2 IS"]));
    assert!(stream.parse_any_istr_of([" asdf", " 99.2 iS"]).unwrap().1 == 1);
}

#[test]
fn test_str_peeking_and_parsing() {
    let mut stream = ParseStream::from("here ARe 222.44 some cool things");
    assert!(stream.peek_str("here"));
    assert!(stream.peek_istr("HeRe"));
    assert!(!stream.peek_str("HeRe"));
    let parsed = stream.parse_istr("HERe ").unwrap();
    assert_eq!(parsed.to_string(), "here ");
    assert!(!stream.peek_str("are"));
    assert!(stream.peek_istr("arE"));
    let parsed = stream.parse_str("ARe ").unwrap();
    assert_eq!(parsed.span().source_text(), "ARe ");
}

#[test]
fn test_regex_parsing() {
    let mut stream = ParseStream::from("$33.29");
    let parsed = stream
        .parse_regex(r"(?i)\$?-?\d{1,3}(?:,\d{3})*(?:\.\d{1,2})?")
        .unwrap();
    assert_eq!(parsed.span().source_text(), "$33.29");
    let mut stream = ParseStream::from("$33.29");
    let parsed = stream
        .parse_regex(r"^(?i)\$?-?\d{1,3}(?:,\d{3})*(?:\.\d{1,2})?$")
        .unwrap();
    assert_eq!(parsed.span().source_text(), "$33.29");
    let mut stream = ParseStream::from("asdf33.29");
    let parsed = stream
        .parse_regex(r"^(?i)\$?-?\d{1,3}(?:,\d{3})*(?:\.\d{1,2})?$")
        .unwrap_err();
    assert!(parsed.to_string().contains("expected match for"));
    let mut stream = ParseStream::from("hey what $33.29");
    let parsed = stream
        .parse_regex(r"(?i)\$?-?\d{1,3}(?:,\d{3})*(?:\.\d{1,2})?")
        .unwrap_err();
    assert!(parsed.to_string().contains("expected match for"));
}
