//! All that is left of the input.

use crate::equality::str_eq;
use crate::indexed_string::IndexedStr;
use crate::parsing::{
    common_prefix_len, error_view, expected_message, Error, Outcome, Parsable, ParseStream,
    StreamView,
};
use crate::span::{Span, SpanView, Spanned};
use vstd::prelude::*;

verus! {

/// The rest of the input, whatever it is.
#[derive(Debug, Hash, PartialEq, Eq)]
pub struct Everything(Span);

impl View for Everything {
    type V = SpanView;

    closed spec fn view(&self) -> SpanView {
        self.0@
    }
}

impl Clone for Everything {
    fn clone(&self) -> (r: Everything)
        ensures
            r@ == self@,
    {
        Everything(self.0.clone())
    }
}

impl Everything {
    /// The text of `span` as the rest of some input.
    pub fn new(span: Span) -> (r: Everything)
        ensures
            r@ == span@,
    {
        Everything(span)
    }

    /// The text.
    pub fn to_string(&self) -> (s: String)
        ensures
            s@ == self@.text(),
    {
        self.unparse()
    }
}

impl Spanned for Everything {
    closed spec fn span_view(&self) -> SpanView {
        self.0@
    }

    fn span(&self) -> (s: Span) {
        self.0.clone()
    }
}

impl Parsable for Everything {
    /// Parsing consumes all that is left.
    open spec fn parse_spec(s: StreamView) -> Outcome<SpanView> {
        Outcome { result: Ok(s.remaining_span()), position: s.len() }
    }

    /// Where what is left of the stream is the text, all of it is consumed.
    /// Else the stream moves to the first character that differs; the error
    /// names the rest of the text there, or the end of the input where the
    /// stream holds more than the text.
    open spec fn parse_value_spec(value: SpanView, s: StreamView) -> Outcome<SpanView> {
        let text = value.text();
        if s.remaining() == text {
            Outcome { result: Ok(s.span_of_next(text.len())), position: s.position + text.len() }
        } else {
            let k = common_prefix_len(text, s.remaining());
            Outcome {
                result: Err(
                    error_view(
                        s.advanced(k).current_span(),
                        if k < text.len() {
                            expected_message(text.skip(k as int))
                        } else {
                            "expected end of input"@
                        },
                    ),
                ),
                position: s.position + k,
            }
        }
    }

    open spec fn unparse_spec(value: SpanView) -> Seq<char> {
        value.text()
    }

    open spec fn span_of(value: SpanView) -> SpanView {
        value
    }

    fn parse(stream: &mut ParseStream) -> (r: Result<Everything, Error>) {
        Ok(Everything(stream.consume_remaining()))
    }

    fn parse_value(value: &Everything, stream: &mut ParseStream) -> (r: Result<Everything, Error>) {
        let text = value.0.source_text();
        let left = stream.remaining_len();
        match stream.match_text(text.chars()) {
            Ok(n) => {
                if n == left {
                    proof {
                        assert(stream@.remaining() =~= text@);
                    }
                    let span = stream.span_of_next(n);
                    stream.set_position(stream.position() + n);
                    Ok(Everything(span))
                } else {
                    proof {
                        crate::parsing::lemma_common_prefix(text@, stream@.remaining());
                    }
                    stream.set_position(stream.position() + n);
                    Err(Error::new(stream.current_span(), "expected end of input"))
                }
            },
            Err(k) => {
                stream.set_position(stream.position() + k);
                Err(Error::expected(stream.current_span(), text.slice(k..).as_str()))
            },
        }
    }

    fn unparse(&self) -> (s: String) {
        self.0.source_text().as_str().to_owned()
    }

    proof fn lemma_span_of(&self) {
    }

    proof fn lemma_unparse_consumed(s: StreamView) {
    }
}

impl std::str::FromStr for Everything {
    type Err = Error;

    /// Parses the text as a value of this type, from its start.
    fn from_str(s: &str) -> (r: Result<Everything, Error>)
        ensures
            crate::parsing::result_view(r) == <Everything as Parsable>::parse_spec(
                crate::parsing::stream_over(s@),
            ).result,
    {
        let mut stream = ParseStream::from(s);
        Everything::parse(&mut stream)
    }
}

} // verus!
