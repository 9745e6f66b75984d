use quoth::parsable::{
    BoundedI64, Decimal, Exact, Nothing, Optional, Whitespace, I128, I64, U128, U64,
};
use quoth::{
    common_prefix, regex_of, Diagnostic, DiagnosticLevel, Error, IndexedStr, IndexedString,
    LineCol, MultiSpan, ParseStream, Pattern, Source, Span, Spanned,
};
use std::rc::Rc;

fn span_of(text: &str, start: usize, end: usize) -> Span {
    Span::new(Rc::new(Source::from_str(text)), start..end)
}

#[test]
fn lengths_count_characters_and_bytes() {
    let text = IndexedString::from_str("a😊b₳");
    assert_eq!(text.len(), 4);
    assert_eq!(text.byte_len(), 9);
    assert_eq!(text.byte_offset(0), 0);
    assert_eq!(text.byte_offset(1), 1);
    assert_eq!(text.byte_offset(2), 5);
    assert_eq!(text.byte_offset(3), 6);
    assert_eq!(text.byte_offset(4), 9);
    assert_eq!(text.byte_offset(40), 9);
    assert_eq!(text.slice(1..3).byte_len(), 5);
    assert_eq!(text.slice(1..3).as_str(), "😊b");
    assert_eq!(text.slice(3..).as_str(), "₳");
    assert_eq!(text.chars(), &['a', '😊', 'b', '₳']);
    assert_eq!(text.slice(1..3).chars(), &['😊', 'b']);
    assert!(!text.is_empty());
    assert!(text.slice(2..2).is_empty());
    assert_eq!(quoth::char_width('a'), 1);
    assert_eq!(quoth::char_width('é'), 2);
    assert_eq!(quoth::char_width('₳'), 3);
    assert_eq!(quoth::char_width('😊'), 4);
}

#[test]
fn texts_are_equal_by_their_characters() {
    let text = IndexedString::from_str("h₳ello");
    let same = IndexedString::from_vec("h₳ello".chars().collect());
    assert_eq!(text, same);
    assert_eq!(text, text.clone());
    assert_eq!(text, String::from("h₳ello"));
    assert_eq!(text, text.as_slice());
    assert_eq!(text.slice(1..3), same.slice(1..3));
    assert_eq!(text.slice(1..3), IndexedString::from_str("₳e"));
    assert_eq!(text.slice(1..3), String::from("₳e"));
    assert_eq!("₳e", text.slice(1..3));
    assert_eq!("h₳ello", text);
    assert_ne!(text, "h₳ellO");
    assert_ne!(text.slice(1..3), text.slice(2..4));
    assert_eq!(text.slice(1..3).to_indexed_string(), "₳e");
    assert_eq!(text.to_indexed_string(), text);
    assert_eq!(text[1], '₳');
    assert_eq!(text.slice(2..)[1], 'l');
    assert!(quoth::str_eq("₳", "₳"));
    assert!(!quoth::str_eq("₳", "₴"));
    assert!(!quoth::str_eq("a", "ab"));
}

#[test]
fn from_chars_takes_what_is_left_of_the_iterator() {
    let mut chars = "x₳yz".chars();
    chars.next();
    let text = IndexedString::from_chars(chars);
    assert_eq!(text, "₳yz");
    assert_eq!(text.len(), 3);
    assert_eq!(IndexedString::from_vec(vec!['q', '😊']).as_str(), "q😊");
}

#[test]
fn lines_are_cut_at_line_feeds() {
    let lines = |text: &str| -> Vec<String> {
        IndexedString::from_str(text)
            .lines()
            .iter()
            .map(|l| l.to_string())
            .collect()
    };
    assert_eq!(lines(""), vec![""]);
    assert_eq!(lines("one"), vec!["one"]);
    assert_eq!(lines("one\ntwo"), vec!["one", "two"]);
    assert_eq!(lines("one\n"), vec!["one", ""]);
    assert_eq!(lines("\n\n"), vec!["", "", ""]);
    assert_eq!(lines("a\r\nb"), vec!["a\r", "b"]);
    let text = IndexedString::from_str("ab\ncd\nef");
    let inner: Vec<String> = text.slice(1..7).lines().iter().map(|l| l.to_string()).collect();
    assert_eq!(inner, vec!["b", "cd", "e"]);
}

#[test]
fn lines_agree_with_safe_string() {
    for text in ["", "a", "a\nb", "a\n", "\n", "x\n\ny", "h₳\n😊\n"] {
        let ours: Vec<String> = IndexedString::from_str(text)
            .lines()
            .iter()
            .map(|l| l.to_string())
            .collect();
        let theirs: Vec<String> =
            safe_string::IndexedStr::lines(&safe_string::IndexedString::from_str(text))
                .map(|l| safe_string::IndexedStr::as_str(&l).to_string())
                .collect();
        assert_eq!(ours, theirs);
    }
}

#[test]
fn span_ends_are_clamped_to_the_source() {
    let span = span_of("hello", 2, 100);
    assert_eq!(span.byte_range().clone(), 2..5);
    assert_eq!(span.source_text(), "llo");
    let span = span_of("", 0, 7);
    assert_eq!(span.byte_range().clone(), 0..0);
    assert!(span.is_blank());
    let span = span_of("hello", 9, 12);
    assert_eq!(span.source_text(), "");
    assert!(!span_of("hello", 1, 2).is_blank());
    assert!(span_of("hello", 3, 3).is_blank());
    assert_eq!(span_of("hello", 1, 2).source().len(), 5);
    assert_eq!(span_of("hello", 1, 2).source_path(), None);
}

#[test]
fn line_and_column_count_from_zero() {
    let text = "ab\ncde\n\nf";
    assert_eq!(span_of(text, 0, 1).start(), LineCol { line: 0, col: 0 });
    assert_eq!(span_of(text, 2, 3).start(), LineCol { line: 0, col: 2 });
    assert_eq!(span_of(text, 3, 5).start(), LineCol { line: 1, col: 0 });
    assert_eq!(span_of(text, 3, 5).end(), LineCol { line: 1, col: 2 });
    assert_eq!(span_of(text, 1, 8).end(), LineCol { line: 3, col: 0 });
    assert_eq!(span_of(text, 1, 100).end(), LineCol { line: 3, col: 1 });
    assert_eq!(span_of(text, 5, 2).end(), LineCol { line: 1, col: 2 });
}

#[test]
fn source_lines_give_each_touched_line_with_its_columns() {
    let text = "ab\ncde\n\nf";
    let span = span_of(text, 1, 8);
    let lines: Vec<(String, std::ops::Range<usize>)> = span
        .source_lines()
        .into_iter()
        .map(|(l, r)| (l.to_string(), r))
        .collect();
    assert_eq!(
        lines,
        vec![
            ("ab".to_string(), 1..2),
            ("cde".to_string(), 0..3),
            ("".to_string(), 0..0),
            ("f".to_string(), 0..0),
        ]
    );
    let span = span_of(text, 4, 6);
    let lines: Vec<(String, std::ops::Range<usize>)> = span
        .source_lines()
        .into_iter()
        .map(|(l, r)| (l.to_string(), r))
        .collect();
    assert_eq!(lines, vec![("cde".to_string(), 1..3)]);
}

#[test]
fn sources_hold_text_and_path() {
    let mut source = Source::from_str("text");
    assert_eq!(source.source_path(), None);
    assert_eq!(source.source_text(), "text");
    source.set_path(Some("dir/file.txt".to_string()));
    assert_eq!(source.source_path(), Some("dir/file.txt"));
    assert_ne!(source, Source::from_str("text"));
    source.set_path(None);
    assert_eq!(source, Source::from_str("text"));
    assert_eq!(source.len(), 4);
    assert_eq!(source.char_at(1), Some('e'));
    let other = Source::from_indexed_string(IndexedString::from_str("text"));
    assert_eq!(source, other);
    assert_eq!(Source::from("text"), other);
    assert_eq!(Source::from(String::from("text")), other.clone());
    let spans = vec![span_of("ab", 0, 1), span_of("cd", 1, 2)];
    assert_eq!(spans.clone().into_spans(), spans);
}

#[test]
fn a_path_is_shown_in_place_of_the_context_name() {
    let mut source = Source::from_str("this is a triumph");
    source.set_path(Some("notes/song.txt".to_string()));
    let diag = Diagnostic::new(
        DiagnosticLevel::Note,
        Span::new(Rc::new(source), 0..4),
        "look here",
        Some("the thing"),
        Vec::new(),
    );
    assert_eq!(
        diag.to_string(),
        "note: look here\n --> notes/song.txt:1:0\n  |\n1 | this is a triumph\n    ^^^^\n"
    );
    assert_eq!(diag.context_name(), "the thing");
}

#[test]
fn the_gutter_is_as_wide_as_the_first_line_number() {
    let text = "0\n1\n2\n3\n4\n5\n6\n7\n8\nnine\nten";
    let diag = Diagnostic::new(
        DiagnosticLevel::Help,
        span_of(text, 19, 25),
        "wide",
        None,
        Vec::new(),
    );
    assert_eq!(
        diag.to_string(),
        "help: wide\n  --> input:10:1\n   |\n10 | nine\n      ^^^\n11 | ten\n     ^^\n"
    );
}

#[test]
fn runs_of_white_space_are_not_underlined() {
    let diag = Diagnostic::new(
        DiagnosticLevel::Error,
        span_of("a   b c", 0, 7),
        "gaps",
        None,
        Vec::new(),
    );
    assert_eq!(
        diag.to_string(),
        "error: gaps\n --> input:1:0\n  |\n1 | a   b c\n    ^   ^^^\n"
    );
}

#[test]
fn diagnostics_are_built_and_changed() {
    let mut diag = Diagnostic::new(
        DiagnosticLevel::Error,
        span_of("text", 0, 2),
        "first",
        None,
        Vec::new(),
    );
    assert_eq!(diag.level(), DiagnosticLevel::Error);
    assert_eq!(diag.message(), "first");
    assert_eq!(diag.context_name(), "input");
    assert!(diag.children().is_empty());
    diag.set_level(DiagnosticLevel::Warning);
    diag.set_message("second");
    diag.set_context_name(Some("here"));
    assert_eq!(diag.level(), DiagnosticLevel::Warning);
    assert_eq!(diag.message(), "second");
    assert_eq!(diag.context_name(), "here");
    diag.set_context_name(None);
    assert_eq!(diag.context_name(), "input");
    assert_eq!(diag.span().byte_range().clone(), 0..2);
    assert_eq!(DiagnosticLevel::Error.to_string(), "error");
    assert_eq!(DiagnosticLevel::Warning.to_string(), "warning");
    assert_eq!(DiagnosticLevel::Note.to_string(), "note");
    assert_eq!(DiagnosticLevel::Help.to_string(), "help");
}

#[test]
fn merged_span_covers_the_whole_tree() {
    let source = Rc::new(Source::from_str("0123456789"));
    let leaf = Diagnostic::new(
        DiagnosticLevel::Note,
        Span::new(source.clone(), 8..9),
        "leaf",
        None,
        Vec::new(),
    );
    let child = Diagnostic::new(
        DiagnosticLevel::Note,
        Span::new(source.clone(), 1..2),
        "child",
        None,
        vec![leaf],
    );
    let root = Diagnostic::new(
        DiagnosticLevel::Error,
        Span::new(source.clone(), 4..6),
        "root",
        None,
        vec![child],
    );
    assert_eq!(root.merged_span().unwrap().byte_range().clone(), 1..9);
    let alone = Diagnostic::new(
        DiagnosticLevel::Error,
        Span::new(source.clone(), 4..6),
        "alone",
        None,
        Vec::new(),
    );
    assert_eq!(alone.merged_span().unwrap(), alone.span());
    let stranger = Diagnostic::new(
        DiagnosticLevel::Note,
        span_of("elsewhere", 0, 3),
        "stranger",
        None,
        Vec::new(),
    );
    let mixed = Diagnostic::new(
        DiagnosticLevel::Error,
        Span::new(source.clone(), 4..6),
        "mixed",
        None,
        vec![stranger],
    );
    assert!(mixed.merged_span().is_err());
}

#[test]
fn errors_are_error_level_diagnostics() {
    let error = Error::new(span_of("text", 1, 3), "went wrong");
    assert_eq!(error.level(), DiagnosticLevel::Error);
    assert_eq!(error.message(), "went wrong");
    assert_eq!(error.context_name(), "input");
    assert!(error.children().is_empty());
    assert_eq!(error.span().byte_range().clone(), 1..3);
    let error = Error::expected(span_of("text", 1, 3), "more");
    assert_eq!(error.message(), "expected `more`");
    assert_eq!(
        error.to_string(),
        "error: expected `more`\n --> input:1:1\n  |\n1 | text\n     ^^\n"
    );
}

#[test]
fn spans_of_the_stream() {
    let mut stream = ParseStream::from("abc");
    assert_eq!(stream.current_span().byte_range().clone(), 0..1);
    assert_eq!(stream.remaining_span().byte_range().clone(), 0..3);
    assert_eq!(stream.source().len(), 3);
    assert_eq!(stream.consume_remaining().byte_range().clone(), 0..3);
    assert_eq!(stream.position, 3);
    assert_eq!(stream.current_span().byte_range().clone(), 3..3);
    assert_eq!(stream.remaining(), "");
    stream.position = 50;
    assert_eq!(stream.remaining(), "");
    assert_eq!(stream.remaining_len(), 0);
    assert!(stream.consume(0).is_ok());
    assert_eq!(stream.position, 50);
    assert!(stream.consume(1).is_err());
    assert!(stream.next_char().is_err());
}

#[test]
fn consume_fails_where_too_little_is_left() {
    let mut stream = ParseStream::from("abcd");
    stream.position = 2;
    let error = stream.consume(5).unwrap_err();
    assert_eq!(error.message(), "expected at least 5 more characters, found 2");
    assert_eq!(error.span().byte_range().clone(), 2..4);
    assert_eq!(stream.position, 2);
    let span = stream.consume(2).unwrap();
    assert_eq!(span.source_text(), "cd");
    assert_eq!(stream.position, 4);
}

#[test]
fn consume_counts_characters() {
    let mut stream = ParseStream::from("₳😊x");
    let span = stream.consume(2).unwrap();
    assert_eq!(span.source_text(), "₳😊");
    assert_eq!(stream.remaining(), "x");
    assert_eq!(stream.consume(2).unwrap_err().message(), "expected at least 2 more characters, found 1");
}

#[test]
fn characters_digits_and_letters() {
    let mut stream = ParseStream::from("a1₳");
    assert_eq!(stream.next_char().unwrap(), 'a');
    assert_eq!(stream.next_alpha().unwrap(), 'a');
    assert_eq!(stream.next_digit().unwrap_err().message(), "expected digit (0-9)");
    assert_eq!(stream.position, 0);
    assert_eq!(stream.parse_alpha().unwrap(), 'a');
    assert_eq!(stream.next_alpha().unwrap_err().message(), "expected alphabetic (A-Z|a-z)");
    assert_eq!(stream.parse_alpha().unwrap_err().span().byte_range().clone(), 1..2);
    assert_eq!(stream.position, 1);
    assert_eq!(stream.next_digit().unwrap(), 1);
    assert_eq!(stream.parse_digit().unwrap(), 1);
    assert_eq!(stream.parse_char().unwrap(), '₳');
    assert_eq!(stream.position, 3);
    assert_eq!(stream.parse_char().unwrap_err().message(), "unexpected end of input");
    assert_eq!(stream.next_digit().unwrap_err().message(), "unexpected end of input");
    assert_eq!(stream.next_alpha().unwrap_err().message(), "unexpected end of input");
    assert_eq!(stream.position, 3);
}

#[test]
fn one_of_several_texts() {
    let mut stream = ParseStream::from("beta gamma");
    let error = stream.parse_any_str_of(["alpha", "gamma"]).unwrap_err();
    assert_eq!(error.message(), "expected one of `alpha`, `gamma`");
    assert_eq!(error.span().byte_range().clone(), 0..1);
    assert_eq!(stream.position, 0);
    let (found, index) = stream.parse_any_str_of(["alpha", "be", "beta"]).unwrap();
    assert_eq!(found.to_string(), "be");
    assert_eq!(index, 1);
    assert_eq!(stream.position, 2);
    let error = stream.parse_any_istr_of(["X", "Y"]).unwrap_err();
    assert_eq!(error.message(), "expected one of `X`, `Y`");
    let (found, index) = stream.parse_any_istr_of(["TA G", "T"]).unwrap();
    assert_eq!(found.to_string(), "ta g");
    assert_eq!(index, 0);
    let error = stream
        .parse_any_value_of([Exact::from("x"), Exact::from("yz")])
        .unwrap_err();
    assert_eq!(error.message(), "expected one of `x`, `yz`");
    assert!(!stream.peek_any_value_of([Exact::from("x"), Exact::from("yz")]));
    assert!(stream.peek_any_value_of([Exact::from("x"), Exact::from("am")]));
    assert!(!stream.peek_any_str_of(["x", "y"]));
    assert!(!stream.peek_any_istr_of(["x", "y"]));
    let empty: [&str; 0] = [];
    assert_eq!(stream.parse_any_str_of(empty).unwrap_err().message(), "expected one of ");
}

#[test]
fn matching_without_regard_to_case() {
    let mut stream = ParseStream::from("Hello World");
    let error = stream.parse_istr("HELP").unwrap_err();
    assert_eq!(error.message(), "expected `P`");
    assert_eq!(error.span().byte_range().clone(), 3..4);
    assert_eq!(stream.position, 3);
    let found = stream.parse_istr("LO w").unwrap();
    assert_eq!(found.to_string(), "lo W");
    assert_eq!(stream.remaining(), "orld");
    let error = stream.parse_istr("ORLDS").unwrap_err();
    assert_eq!(error.message(), "expected `S`");
    assert_eq!(stream.position, 11);
    let mut stream = ParseStream::from("Hello World");
    let found = stream.parse_lowered("HELLO", "hello", "hello world").unwrap();
    assert_eq!(found.to_string(), "Hello");
}

#[test]
fn optional_values() {
    let some: Optional<U64> = Some(quoth::parse::<U64>("5").unwrap()).into();
    assert!(some.is_some());
    assert_eq!(some.to_string(), "5");
    let back: Option<U64> = some.into();
    assert_eq!(back.unwrap().value(), 5);
    let none: Optional<U64> = None.into();
    assert!(none.is_none());
    assert_eq!(none.to_string(), "");
    assert!(none.span().is_blank());
    let back: Option<U64> = none.into();
    assert!(back.is_none());
    let mut stream = ParseStream::from("x");
    let kept = stream.parse_value(Optional::<U64>::Absent).unwrap();
    assert!(kept.is_none());
    assert_eq!(stream.position, 0);
    assert!(stream.peek::<Optional<U64>>());
    assert!(!stream.peek::<U64>());
    assert!(stream.peek::<Exact>());
    assert!("12".parse::<Optional<U64>>().unwrap().is_some());
    assert!("x".parse::<Optional<U64>>().unwrap().is_none());
    assert_eq!("abc".parse::<Exact>().unwrap().to_string(), "");
    assert_eq!("  ".parse::<Whitespace>().unwrap().to_string(), "  ");
    assert!("x".parse::<Nothing>().is_err());
    assert_eq!("-3".parse::<I64>().unwrap().value(), -3);
    assert_eq!("2.5".parse::<Decimal>().unwrap().scale(), 1);
    assert_eq!("30".parse::<BoundedI64<20, 40>>().unwrap().value(), 30);
    assert_eq!("7".parse::<U128>().unwrap().value(), 7);
    assert_eq!("-7".parse::<I128>().unwrap().value(), -7);
    assert_eq!("rest".parse::<quoth::parsable::Everything>().unwrap().to_string(), "rest");
}

#[test]
fn common_prefix_of_two_texts() {
    assert_eq!(common_prefix("abcdef", "abcxyz"), "abc");
    assert_eq!(common_prefix("abc", "abcdef"), "abc");
    assert_eq!(common_prefix("", "abc"), "");
    assert_eq!(common_prefix("xyz", "abc"), "");
    assert_eq!(common_prefix("h₳x", "h₳y"), "h₳");
}

#[test]
fn white_space_and_end_of_input() {
    let mut stream = ParseStream::from(" \u{a0}\u{2003}x");
    let space = stream.parse::<Whitespace>().unwrap();
    assert_eq!(space.span().byte_range().clone(), 0..3);
    let error = stream.parse::<Whitespace>().unwrap_err();
    assert_eq!(error.message(), "expected whitespace");
    let error = stream.parse::<Nothing>().unwrap_err();
    assert_eq!(error.message(), "expected nothing, found `x`");
    assert_eq!(stream.position, 3);
    for c in ['\t', '\n', '\u{b}', '\u{c}', '\r', ' ', '\u{85}', '\u{a0}', '\u{1680}', '\u{2000}', '\u{200a}', '\u{2028}', '\u{2029}', '\u{202f}', '\u{205f}', '\u{3000}'] {
        assert!(quoth::text::is_whitespace(c));
        assert!(c.is_whitespace());
    }
    for c in ['a', '\u{200b}', '\u{180e}', '\u{feff}', '\u{8}', '\u{e}', '\u{84}', '\u{86}', '\u{200c}'] {
        assert!(!quoth::text::is_whitespace(c));
        assert!(!c.is_whitespace());
    }
}

#[test]
fn white_space_agrees_with_std_on_every_character() {
    let mut c = 0u32;
    while c <= 0x10ffff {
        if let Some(ch) = char::from_u32(c) {
            assert_eq!(quoth::text::is_whitespace(ch), ch.is_whitespace());
            assert_eq!(quoth::text::is_ascii_alphabetic(ch), ch.is_ascii_alphabetic());
            assert_eq!(quoth::char_width(ch), ch.len_utf8());
        }
        c += 1;
    }
}

#[test]
fn numbers_at_their_limits() {
    assert_eq!(quoth::parse::<U64>("18446744073709551615").unwrap().value(), u64::MAX);
    let error = quoth::parse::<U64>("18446744073709551616").unwrap_err();
    assert_eq!(error.message(), "number too large to fit in target type");
    assert_eq!(error.span().byte_range().clone(), 0..20);
    assert_eq!(
        quoth::parse::<U128>("340282366920938463463374607431768211455").unwrap().value(),
        u128::MAX
    );
    assert!(quoth::parse::<U128>("340282366920938463463374607431768211456").is_err());
    assert_eq!(quoth::parse::<I64>("9223372036854775807").unwrap().value(), i64::MAX);
    assert_eq!(quoth::parse::<I64>("-9223372036854775807").unwrap().value(), -i64::MAX);
    assert!(quoth::parse::<I64>("9223372036854775808").is_err());
    let error = quoth::parse::<I64>("-9223372036854775808").unwrap_err();
    assert_eq!(error.message(), "number too large to fit in target type");
    assert_eq!(error.span().byte_range().clone(), 0..20);
    assert_eq!(
        quoth::parse::<I128>("170141183460469231731687303715884105727").unwrap().value(),
        i128::MAX
    );
    assert!(quoth::parse::<I128>("170141183460469231731687303715884105728").is_err());
    assert_eq!(quoth::parse::<I64>("").unwrap_err().message(), "unexpected end of input");
    let mut stream = ParseStream::from("-x");
    let error = stream.parse::<I64>().unwrap_err();
    assert_eq!(error.message(), "expected digit");
    assert_eq!(stream.position, 1);
    assert_eq!(u64::from(quoth::parse::<U64>("7").unwrap()), 7);
    assert_eq!(u128::from(quoth::parse::<U64>("7").unwrap()), 7);
    assert_eq!(i128::from(quoth::parse::<U64>("7").unwrap()), 7);
    assert_eq!(u128::from(quoth::parse::<U128>("7").unwrap()), 7);
    assert_eq!(i64::from(quoth::parse::<I64>("-7").unwrap()), -7);
    assert_eq!(i128::from(quoth::parse::<I64>("-7").unwrap()), -7);
    assert_eq!(i128::from(quoth::parse::<I128>("-7").unwrap()), -7);
    assert_eq!(I128::from(quoth::parse::<I64>("-7").unwrap()).value(), -7);
}

#[test]
fn bounds_may_be_negative() {
    const LEAST: u64 = -5i64 as u64;
    let parsed = quoth::parse::<BoundedI64<LEAST, 5>>("-5").unwrap();
    assert_eq!(parsed.value(), -5);
    let error = quoth::parse::<BoundedI64<LEAST, 5>>("-6").unwrap_err();
    assert_eq!(error.message(), "must be greater than or equal to -5");
    assert_eq!(error.span().byte_range().clone(), 0..2);
    let error = quoth::parse::<BoundedI64<LEAST, 5>>("6").unwrap_err();
    assert_eq!(error.message(), "must be less than or equal to 5");
    assert_eq!(quoth::parsable::numbers::bound_of(u64::MAX), -1);
    assert_eq!(quoth::parsable::numbers::bound_of(1 << 63), i64::MIN);
    assert_eq!(quoth::parsable::numbers::bound_of(i64::MAX as u64), i64::MAX);
}

#[test]
fn decimals_hold_mantissa_and_scale() {
    let parsed = quoth::parse::<Decimal>("55.63").unwrap();
    assert_eq!(parsed.mantissa(), 5563);
    assert_eq!(parsed.scale(), 2);
    assert_eq!(parsed.value(), (5563, 2));
    let parsed = quoth::parse::<Decimal>("-0.500").unwrap();
    assert_eq!(parsed.mantissa(), -500);
    assert_eq!(parsed.scale(), 3);
    assert_eq!(parsed.span().byte_range().clone(), 0..6);
    let mut stream = ParseStream::from("1.x");
    let error = stream.parse::<Decimal>().unwrap_err();
    assert_eq!(error.message(), "expected digit (0-9)");
    assert_eq!(stream.position, 2);
    assert_eq!(quoth::parse::<Decimal>("-").unwrap_err().message(), "unexpected end of input");
    assert_eq!(quoth::parse::<Decimal>("").unwrap_err().message(), "unexpected end of input");
    assert_eq!(quoth::parse::<Decimal>("12").unwrap_err().message(), "expected `.`");
    let made = Decimal::new(15, 1, span_of("1.5", 0, 3));
    assert_eq!(made.mantissa(), 15);
    assert_eq!(made.to_string(), "1.5");
}

#[test]
fn regular_expressions_match_at_the_position_only() {
    let mut stream = ParseStream::from("ab₳₳12 rest");
    stream.position = 2;
    let found = stream.parse_regex("₳+\\d").unwrap();
    assert_eq!(found.to_string(), "₳₳1");
    assert_eq!(stream.position, 5);
    let error = stream.parse_regex("rest").unwrap_err();
    assert_eq!(error.message(), "expected match for `rest`");
    assert_eq!(error.span().byte_range().clone(), 5..6);
    assert_eq!(stream.position, 5);
    assert!(stream.peek_regex(regex::Regex::new("\\d").unwrap()));
    assert!(!stream.peek_regex(regex::Regex::new("[a-z]").unwrap()));
    assert!(stream.try_parse_regex("(").is_none());
    assert_eq!(stream.position, 5);
    assert_eq!(stream.try_parse_regex("\\d ").unwrap().unwrap().to_string(), "2 ");
    assert!(regex_of("(").is_none());
    assert_eq!(regex_of("a+").unwrap().as_str(), "a+");
    assert!("(".try_to_regex().is_err());
    assert_eq!(String::from("b*").try_to_regex().unwrap().as_str(), "b*");
    assert_eq!("c?".to_regex().as_str(), "c?");
    let found = stream.parse_match("x", Some((0, 1))).unwrap();
    assert_eq!(found.to_string(), "r");
    assert!(stream.parse_match("x", Some((1, 2))).is_err());
    assert!(stream.parse_match("x", None).is_err());
    let mut stream = ParseStream::from("₳x");
    assert!(stream.parse_match("x", Some((0, 1))).is_err());
    assert!(stream.parse_match("x", Some((0, 9))).is_err());
    assert_eq!(stream.parse_match("x", Some((0, 3))).unwrap().to_string(), "₳");
}
