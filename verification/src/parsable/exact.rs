//! A fixed text.

use crate::indexed_string::IndexedStr;
use crate::parsing::{mismatch_at, Error, Outcome, Parsable, ParseStream, StreamView};
use crate::source::{Source, SourceView};
use crate::span::{span_at, Span, SpanView, Spanned};
use std::rc::Rc;
use vstd::prelude::*;

verus! {

/// What matching the text `text` against the stream `s` gives. Where the
/// stream starts with the text, the text is consumed and the value is its span
/// in the stream; else the stream moves to the first character that differs,
/// and the error names the rest of the text there.
pub open spec fn exact_match(text: Seq<char>, s: StreamView) -> Outcome<SpanView> {
    if text.is_prefix_of(s.remaining()) {
        Outcome { result: Ok(s.span_of_next(text.len())), position: s.position + text.len() }
    } else {
        mismatch_at(text, s)
    }
}

/// The text of a span, to be found in a stream as it stands.
#[derive(Debug, Hash, PartialEq, Eq)]
pub struct Exact(pub Span);

impl View for Exact {
    type V = SpanView;

    open spec fn view(&self) -> SpanView {
        self.0@
    }
}

impl Clone for Exact {
    fn clone(&self) -> (r: Exact)
        ensures
            r@ == self@,
    {
        Exact(self.0.clone())
    }
}

impl Exact {
    /// The text of `span`.
    pub fn new(span: Span) -> (r: Exact)
        ensures
            r@ == span@,
    {
        Exact(span)
    }

    /// The text `text`, as the whole of a source of its own.
    pub fn from(text: &str) -> (r: Exact)
        ensures
            r@ == span_at(SourceView { text: text@, path: None }, 0, text@.len() as int),
            r@.text() == text@,
    {
        let source = Rc::new(Source::from_str(text));
        let len = source.len();
        Exact(Span::new(source, 0..len))
    }

    /// The text.
    pub fn to_string(&self) -> (s: String)
        ensures
            s@ == self@.text(),
    {
        self.unparse()
    }
}

impl Spanned for Exact {
    open spec fn span_view(&self) -> SpanView {
        self@
    }

    fn span(&self) -> (s: Span) {
        self.0.clone()
    }
}

impl Parsable for Exact {
    /// Parsing consumes nothing and gives the empty text at the position.
    open spec fn parse_spec(s: StreamView) -> Outcome<SpanView> {
        Outcome { result: Ok(s.span_of_next(0)), position: s.position }
    }

    /// Matching a value matches its text.
    open spec fn parse_value_spec(value: SpanView, s: StreamView) -> Outcome<SpanView> {
        exact_match(value.text(), s)
    }

    open spec fn unparse_spec(value: SpanView) -> Seq<char> {
        value.text()
    }

    open spec fn span_of(value: SpanView) -> SpanView {
        value
    }

    fn parse(stream: &mut ParseStream) -> (r: Result<Exact, Error>) {
        Ok(Exact(stream.span_of_next(0)))
    }

    fn parse_value(value: &Exact, stream: &mut ParseStream) -> (r: Result<Exact, Error>) {
        let text = value.0.source_text();
        match stream.match_text(text.chars()) {
            Ok(n) => {
                let span = stream.span_of_next(n);
                stream.set_position(stream.position() + n);
                Ok(Exact(span))
            },
            Err(k) => {
                stream.set_position(stream.position() + k);
                Err(Error::expected(stream.current_span(), text.slice(k..).as_str()))
            },
        }
    }

    fn unparse(&self) -> (s: String) {
        self.0.source_text().as_str().to_owned()
    }

    proof fn lemma_span_of(&self) {
    }

    proof fn lemma_unparse_consumed(s: StreamView) {
    }
}

impl std::str::FromStr for Exact {
    type Err = Error;

    /// Parses the text as a value of this type, from its start.
    fn from_str(s: &str) -> (r: Result<Exact, Error>)
        ensures
            crate::parsing::result_view(r) == <Exact as Parsable>::parse_spec(
                crate::parsing::stream_over(s@),
            ).result,
    {
        let mut stream = ParseStream::from(s);
        Exact::parse(&mut stream)
    }
}

} // verus!
