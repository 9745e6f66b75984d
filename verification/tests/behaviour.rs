use quoth::parsable::{Decimal, Everything, Exact, Nothing, Optional, Whitespace, I64, U64};
use quoth::{
    parse, IndexedStr, IndexedString, Parsable, ParseStream, Source, Span, SpanJoinError, Spanned,
};
use std::rc::Rc;

fn span_of(text: &str, start: usize, end: usize) -> Span {
    Span::new(Rc::new(Source::from_str(text)), start..end)
}

#[test]
fn round_trip_reproduces_the_text() {
    assert_eq!(parse::<U64>("12345").unwrap().unparse(), "12345");
    assert_eq!(parse::<U64>("00012").unwrap().unparse(), "00012");
    assert_eq!(parse::<I64>("-5").unwrap().unparse(), "-5");
    assert_eq!(parse::<Decimal>("1.50").unwrap().unparse(), "1.50");
    assert_eq!(parse::<Everything>("a b\nc").unwrap().unparse(), "a b\nc");
    assert_eq!(parse::<Whitespace>(" \t\n").unwrap().unparse(), " \t\n");
    assert_eq!(parse::<Nothing>("").unwrap().unparse(), "");
    assert_eq!(parse::<Exact>("").unwrap().unparse(), "");
    assert_eq!(parse::<Optional<U64>>("77").unwrap().unparse(), "77");
    assert_eq!(parse::<Optional<U64>>("").unwrap().unparse(), "");
}

#[test]
fn round_trip_parses_again_to_an_equal_value() {
    let first = parse::<U64>("00012").unwrap();
    let again = parse::<U64>(&first.unparse()).unwrap();
    assert_eq!(first, again);
    assert_eq!(again.value(), 12);
    let first = parse::<I64>("-348").unwrap();
    let again = parse::<I64>(&first.unparse()).unwrap();
    assert_eq!(first, again);
    let first = parse::<Everything>("all of it").unwrap();
    let again = parse::<Everything>(&first.unparse()).unwrap();
    assert_eq!(first, again);
}

#[test]
fn unparse_gives_the_text_that_was_consumed() {
    let mut stream = ParseStream::from("ab 99 hey");
    stream.position = 3;
    let number = stream.parse::<U64>().unwrap();
    assert_eq!(number.unparse(), "99");
    assert_eq!(stream.position, 5);
    let space = stream.parse::<Whitespace>().unwrap();
    assert_eq!(space.unparse(), " ");
    assert_eq!(stream.remaining(), "hey");
}

#[test]
fn slice_clamps_every_range() {
    let text = IndexedString::from_str("hello");
    assert_eq!(text.slice(3..1).len(), 0);
    assert_eq!(text.slice(3..1).as_str(), "");
    assert_eq!(text.slice(2..100).as_str(), "llo");
    assert_eq!(text.slice(2..100).len(), 3);
    assert_eq!(text.slice(100..200).len(), 0);
    assert_eq!(text.slice(5..).len(), 0);
    assert_eq!(text.slice(..=usize::MAX).as_str(), "hello");
    assert_eq!(text.slice(..).as_str(), "hello");
    assert_eq!(text.slice(1..=2).as_str(), "el");
    assert_eq!(text.slice(3..=usize::MAX).as_str(), "lo");
    assert_eq!(text.slice(4..=1).as_str(), "");
    assert_eq!(text.slice(..3).as_str(), "hel");
    assert_eq!(text.slice(usize::MAX..).as_str(), "");
    let inner = text.slice(1..4);
    assert_eq!(inner.slice(1..100).as_str(), "ll");
    assert_eq!(inner.slice(2..1).as_str(), "");
    assert_eq!(inner.char_at(3), None);
    assert_eq!(inner.char_at(2), Some('l'));
}

#[test]
fn join_with_the_blank_span_gives_the_other() {
    let span = span_of("Hello, world!", 2, 5);
    assert_eq!(Span::blank().join(&span).unwrap(), span);
    assert_eq!(span.join(&Span::blank()).unwrap(), span);
    assert_eq!(Span::blank().join(&Span::blank()).unwrap(), Span::blank());
}

#[test]
fn join_of_two_sources_fails() {
    let a = span_of("Hello, world!", 0, 5);
    let b = span_of("another text", 0, 5);
    assert_eq!(a.join(&b), Err(SpanJoinError));
    assert_eq!(b.join(&a), Err(SpanJoinError));
    assert_eq!(
        SpanJoinError.to_string(),
        "the specified spans do not come from the same source"
    );
}

#[test]
fn join_of_one_source_covers_both() {
    let source = Rc::new(Source::from_str("Hello, world!"));
    let a = Span::new(source.clone(), 0..5);
    let b = Span::new(source.clone(), 7..12);
    let joined = a.join(&b).unwrap();
    assert_eq!(joined.byte_range().clone(), 0..12);
    assert_eq!(joined.source_text(), "Hello, world");
    assert_eq!(b.join(&a).unwrap(), joined);
    let inner = Span::new(source.clone(), 2..3);
    assert_eq!(a.join(&inner).unwrap(), a);
    let equal_text = span_of("Hello, world!", 7, 12);
    assert_eq!(a.join(&equal_text).unwrap().byte_range().clone(), 0..12);
}

#[test]
fn mismatch_is_reported_at_the_first_difference() {
    let mut stream = ParseStream::from("abd and more");
    let error = stream.parse_value(Exact::from("abc")).unwrap_err();
    assert_eq!(error.span().byte_range().start, 2);
    assert_eq!(error.message(), "expected `c`");
    assert_eq!(stream.position, 2);
    let mut stream = ParseStream::from("abd and more");
    let number = U64::parse(&mut ParseStream::from("1234")).unwrap();
    let error = stream.parse_value(number).unwrap_err();
    assert_eq!(error.span().byte_range().clone(), 0..4);
    assert_eq!(error.message(), "expected `1234`");
    assert_eq!(stream.position, 0);
    let mut stream = ParseStream::from("12x4");
    let number = U64::parse(&mut ParseStream::from("1234")).unwrap();
    let error = stream.parse_value(number).unwrap_err();
    assert_eq!(error.span().byte_range().clone(), 2..4);
    assert_eq!(error.message(), "expected `34`");
    assert_eq!(stream.position, 2);
}

#[test]
fn fork_leaves_the_stream_where_it_is() {
    let mut stream = ParseStream::from("some input");
    stream.position = 2;
    let mut fork = stream.fork();
    fork.consume(5).unwrap();
    assert_eq!(fork.position, 7);
    assert_eq!(stream.position, 2);
    assert_eq!(stream.remaining(), "me input");
    stream.consume(1).unwrap();
    assert_eq!(fork.position, 7);
    let span = stream.peek_consume(3).unwrap();
    assert_eq!(span.source_text(), "e i");
    assert_eq!(stream.position, 3);
    assert!(stream.peek_consume(100).is_err());
    assert_eq!(stream.position, 3);
}

#[test]
fn everything_then_nothing() {
    let mut stream = ParseStream::from("this is a triumph");
    let all = stream.parse::<Everything>().unwrap();
    assert_eq!(all.span().source_text(), "this is a triumph");
    assert_eq!(stream.position, 17);
    let nothing = stream.parse::<Nothing>().unwrap();
    assert!(nothing.span().is_blank());
    assert_eq!(nothing.span().byte_range().clone(), 17..17);
}

#[test]
fn leading_zeros_stay_in_the_span() {
    let mut stream = ParseStream::from("00078358885");
    let number = stream.parse::<U64>().unwrap();
    assert_eq!(number.value(), 78358885);
    assert_eq!(number.span().byte_range().clone(), 0..11);
}
