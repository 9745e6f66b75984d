//! The end of the input.

use crate::indexed_string::IndexedStr;
use crate::parsing::{error_view, Error, Outcome, Parsable, ParseStream, StreamView};
use crate::span::{Span, SpanView, Spanned};
use vstd::prelude::*;
use vstd::string::StringExecFns;

verus! {

/// Nothing: it is found only where the input has ended.
#[derive(Debug, Hash, PartialEq, Eq)]
pub struct Nothing(Span);

impl View for Nothing {
    type V = SpanView;

    closed spec fn view(&self) -> SpanView {
        self.0@
    }
}

impl Clone for Nothing {
    fn clone(&self) -> (r: Nothing)
        ensures
            r@ == self@,
    {
        Nothing(self.0.clone())
    }
}

/// The message that says that `found` stands where the input should have ended.
pub open spec fn found_message(found: Seq<char>) -> Seq<char> {
    "expected nothing, found `"@ + found + "`"@
}

impl Nothing {
    /// Nothing, at `span`.
    pub fn new(span: Span) -> (r: Nothing)
        ensures
            r@ == span@,
    {
        Nothing(span)
    }

    /// The empty text.
    pub fn to_string(&self) -> (s: String)
        ensures
            s@ == Seq::<char>::empty(),
    {
        self.unparse()
    }
}

impl Spanned for Nothing {
    closed spec fn span_view(&self) -> SpanView {
        self.0@
    }

    fn span(&self) -> (s: Span) {
        self.0.clone()
    }
}

impl Parsable for Nothing {
    /// Parsing succeeds at the end of the input, with the empty span there, and
    /// fails before it with an error that shows the character found.
    open spec fn parse_spec(s: StreamView) -> Outcome<SpanView> {
        if s.position < s.len() {
            Outcome {
                result: Err(
                    error_view(s.current_span(), found_message(s.current_span().text())),
                ),
                position: s.position,
            }
        } else {
            Outcome { result: Ok(s.current_span()), position: s.position }
        }
    }

    /// Matching a value is parsing: every value of the type is the same.
    open spec fn parse_value_spec(value: SpanView, s: StreamView) -> Outcome<SpanView> {
        Self::parse_spec(s)
    }

    open spec fn unparse_spec(value: SpanView) -> Seq<char> {
        Seq::empty()
    }

    open spec fn span_of(value: SpanView) -> SpanView {
        value
    }

    fn parse(stream: &mut ParseStream) -> (r: Result<Nothing, Error>) {
        if stream.remaining_len() > 0 {
            let span = stream.current_span();
            let mut message = String::from_str("expected nothing, found `");
            message.append(span.source_text().as_str());
            message.append("`");
            return Err(Error::new(span, message.as_str()));
        }
        Ok(Nothing(stream.current_span()))
    }

    fn parse_value(value: &Nothing, stream: &mut ParseStream) -> (r: Result<Nothing, Error>) {
        Nothing::parse(stream)
    }

    fn unparse(&self) -> (s: String) {
        String::new()
    }

    proof fn lemma_span_of(&self) {
    }

    proof fn lemma_unparse_consumed(s: StreamView) {
    }
}

impl std::str::FromStr for Nothing {
    type Err = Error;

    /// Parses the text as a value of this type, from its start.
    fn from_str(s: &str) -> (r: Result<Nothing, Error>)
        ensures
            crate::parsing::result_view(r) == <Nothing as Parsable>::parse_spec(
                crate::parsing::stream_over(s@),
            ).result,
    {
        let mut stream = ParseStream::from(s);
        Nothing::parse(&mut stream)
    }
}

} // verus!
