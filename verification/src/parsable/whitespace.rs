//! A run of white space.

use crate::indexed_string::IndexedStr;
use crate::parsing::{
    default_parse_value_spec, error_view, expect_text, Error, Outcome, Parsable, ParseStream,
    StreamView,
};
use crate::span::{Span, SpanView, Spanned};
use crate::text::{is_whitespace, is_whitespace_char};
use vstd::prelude::*;

verus! {

/// How many characters of white space stand in `text` from index `i` on,
/// before the first other character or the end.
pub open spec fn whitespace_run(text: Seq<char>, i: int) -> nat
    decreases text.len() - i,
{
    if 0 <= i < text.len() && is_whitespace_char(text[i]) {
        1 + whitespace_run(text, i + 1)
    } else {
        0
    }
}

/// A run of white space ends within the text.
pub proof fn lemma_whitespace_run(text: Seq<char>, i: int)
    requires
        0 <= i <= text.len(),
    ensures
        i + whitespace_run(text, i) <= text.len(),
    decreases text.len() - i,
{
    if i < text.len() && is_whitespace_char(text[i]) {
        lemma_whitespace_run(text, i + 1);
    }
}

/// One or more characters of white space.
#[derive(Debug, Hash, PartialEq, Eq)]
pub struct Whitespace(Span);

impl View for Whitespace {
    type V = SpanView;

    closed spec fn view(&self) -> SpanView {
        self.0@
    }
}

impl Clone for Whitespace {
    fn clone(&self) -> (r: Whitespace)
        ensures
            r@ == self@,
    {
        Whitespace(self.0.clone())
    }
}

impl Whitespace {
    /// The text.
    pub fn to_string(&self) -> (s: String)
        ensures
            s@ == self@.text(),
    {
        self.unparse()
    }
}

impl Spanned for Whitespace {
    closed spec fn span_view(&self) -> SpanView {
        self.0@
    }

    fn span(&self) -> (s: Span) {
        self.0.clone()
    }
}

impl Parsable for Whitespace {
    /// Parsing consumes the white space at the position, all of it, and fails
    /// where there is none.
    open spec fn parse_spec(s: StreamView) -> Outcome<SpanView> {
        let n = whitespace_run(s.source.text, s.position as int);
        if n == 0 {
            Outcome {
                result: Err(error_view(s.current_span(), "expected whitespace"@)),
                position: s.position,
            }
        } else {
            Outcome { result: Ok(s.span_of_next(n)), position: s.position + n }
        }
    }

    open spec fn parse_value_spec(value: SpanView, s: StreamView) -> Outcome<SpanView> {
        default_parse_value_spec(value.text(), s, Self::parse_spec(s))
    }

    open spec fn unparse_spec(value: SpanView) -> Seq<char> {
        value.text()
    }

    open spec fn span_of(value: SpanView) -> SpanView {
        value
    }

    fn parse(stream: &mut ParseStream) -> (r: Result<Whitespace, Error>) {
        let mut probe = stream.fork();
        let mut n: usize = 0;
        loop
            invariant
                probe@ == stream@.advanced(n as nat),
                stream@ == old(stream)@,
                whitespace_run(stream@.source.text, stream@.position as int) == n + whitespace_run(
                    stream@.source.text,
                    stream@.position + n,
                ),
            ensures
                whitespace_run(stream@.source.text, stream@.position + n) == 0,
            decreases stream@.len() - probe@.position,
        {
            match probe.next_char() {
                Ok(c) => {
                    if !is_whitespace(c) {
                        break ;
                    }
                    probe.set_position(probe.position() + 1);
                    n = n + 1;
                },
                Err(_) => {
                    break ;
                },
            }
        }
        if n == 0 {
            return Err(Error::new(stream.current_span(), "expected whitespace"));
        }
        let span = stream.span_of_next(n);
        stream.set_position(probe.position());
        Ok(Whitespace(span))
    }

    fn parse_value(value: &Whitespace, stream: &mut ParseStream) -> (r: Result<Whitespace, Error>) {
        let span = value.0.clone();
        match expect_text(span.source_text().chars(), stream) {
            Ok(_) => Whitespace::parse(stream),
            Err(e) => Err(e),
        }
    }

    fn unparse(&self) -> (s: String) {
        self.0.source_text().as_str().to_owned()
    }

    proof fn lemma_span_of(&self) {
    }

    proof fn lemma_unparse_consumed(s: StreamView) {
        lemma_whitespace_run(s.source.text, s.position as int);
    }
}

impl std::str::FromStr for Whitespace {
    type Err = Error;

    /// Parses the text as a value of this type, from its start.
    fn from_str(s: &str) -> (r: Result<Whitespace, Error>)
        ensures
            crate::parsing::result_view(r) == <Whitespace as Parsable>::parse_spec(
                crate::parsing::stream_over(s@),
            ).result,
    {
        let mut stream = ParseStream::from(s);
        Whitespace::parse(&mut stream)
    }
}

} // verus!
