//! Decimal numbers with a fraction. The digits are read here; their value is
//! that which the `rust_decimal` crate gives them.

use crate::diagnostic::DiagnosticView;
use crate::indexed_string::IndexedStr;
use crate::parsable::exact::exact_match;
use crate::parsable::numbers::{digit_run, lemma_digit_run};
use crate::parsing::{
    default_parse_value_spec, error_view, expect_text, Error, Outcome, Parsable, ParseStream,
    StreamView,
};
use crate::span::{span_at, Span, SpanView, Spanned};
use std::str::FromStr;
use vstd::prelude::*;

verus! {

/// What a [`Decimal`] holds: the number as a whole number, the mantissa, that
/// is to be divided by ten to the power of the scale, and the span of its text.
pub struct DecimalView {
    pub mantissa: i128,
    pub scale: u32,
    pub span: SpanView,
}

/// What `rust_decimal::Decimal::from_str` makes of a text: the mantissa and
/// the scale of the decimal that it reads, or the message of its error.
pub uninterp spec fn decimal_of_text(text: Seq<char>) -> Result<(i128, u32), Seq<char>>;

/// Calls `rust_decimal::Decimal::from_str`, which reads a decimal from a text,
/// and takes from the decimal its mantissa and its scale, or from the error its
/// message; the outcome depends on the text alone.
#[verifier::external_body]
fn read_decimal(text: &str) -> (r: Result<(i128, u32), String>)
    ensures
        match r {
            Ok(parts) => decimal_of_text(text@) == Ok::<(i128, u32), Seq<char>>(parts),
            Err(message) => decimal_of_text(text@) == Err::<(i128, u32), Seq<char>>(message@),
        },
{
    match rust_decimal::Decimal::from_str(text) {
        Ok(d) => Ok((d.mantissa(), d.scale())),
        Err(e) => Err(e.to_string()),
    }
}

/// The error that a stream gives where a digit is asked for and none stands.
pub open spec fn digit_error(s: StreamView) -> DiagnosticView {
    match s.next_digit() {
        Err(e) => e,
        Ok(_) => arbitrary(),
    }
}

/// What reading the shape of a decimal from the stream `s` gives: the span of
/// an optional minus sign, one or more digits, a point, and one or more
/// digits. At the end of the input, and where a digit or the point is missing,
/// the error says so, with the stream where the missing part was expected.
pub open spec fn decimal_shape(s: StreamView) -> Outcome<SpanView> {
    match s.next_char() {
        None => Outcome { result: Err(s.end_of_input()), position: s.position },
        Some(c) => {
            let whole = if c == '-' {
                s.advanced(1)
            } else {
                s
            };
            let n = digit_run(s.source.text, whole.position as int);
            let point = whole.advanced(n);
            let dot = exact_match("."@, point);
            let fraction = point.moved_to(dot.position);
            let m = digit_run(s.source.text, fraction.position as int);
            if n == 0 {
                Outcome { result: Err(digit_error(whole)), position: whole.position }
            } else if dot.result is Err {
                Outcome { result: Err(dot.result->Err_0), position: dot.position }
            } else if m == 0 {
                Outcome { result: Err(digit_error(fraction)), position: fraction.position }
            } else {
                Outcome {
                    result: Ok(
                        span_at(s.source, s.position as int, (fraction.position + m) as int),
                    ),
                    position: fraction.position + m,
                }
            }
        },
    }
}

/// What parsing a decimal from the stream `s` gives: the text of the shape of
/// a decimal is consumed, and its value is what `rust_decimal` reads from it;
/// where that fails, the error holds its message at the span of the text.
pub open spec fn decimal_parse(s: StreamView) -> Outcome<DecimalView> {
    let shape = decimal_shape(s);
    Outcome {
        result: match shape.result {
            Err(e) => Err(e),
            Ok(span) => match decimal_of_text(span.text()) {
                Ok(parts) => Ok(DecimalView { mantissa: parts.0, scale: parts.1, span }),
                Err(message) => Err(error_view(span, message)),
            },
        },
        position: shape.position,
    }
}

/// Consumes the digits at the position, all of them, and gives their number.
fn skip_digits(stream: &mut ParseStream) -> (n: usize)
    ensures
        final(stream)@ == old(stream)@.advanced(n as nat),
        n == digit_run(old(stream)@.source.text, old(stream)@.position as int),
{
    let ghost text = stream@.source.text;
    let first = stream.position();
    loop
        invariant
            stream@.source == old(stream)@.source,
            stream@.position >= first,
            text == old(stream)@.source.text,
            first == old(stream)@.position,
            digit_run(text, first as int) == stream@.position - first + digit_run(
                text,
                stream@.position as int,
            ),
        ensures
            digit_run(text, stream@.position as int) == 0,
        decreases text.len() - stream@.position,
    {
        match stream.parse_digit() {
            Ok(_) => {},
            Err(_) => {
                break ;
            },
        }
    }
    stream.position() - first
}

/// A decimal number with a fraction, such as `-12.50`.
#[derive(Debug, Hash, PartialEq, Eq)]
pub struct Decimal {
    mantissa: i128,
    scale: u32,
    span: Span,
}

impl View for Decimal {
    type V = DecimalView;

    closed spec fn view(&self) -> DecimalView {
        DecimalView { mantissa: self.mantissa, scale: self.scale, span: self.span@ }
    }
}

impl Clone for Decimal {
    fn clone(&self) -> (r: Decimal)
        ensures
            r@ == self@,
    {
        Decimal { mantissa: self.mantissa, scale: self.scale, span: self.span.clone() }
    }
}

impl Decimal {
    /// The decimal of the given mantissa and scale, at `span`.
    pub fn new(mantissa: i128, scale: u32, span: Span) -> (r: Decimal)
        ensures
            r@ == (DecimalView { mantissa, scale, span: span@ }),
    {
        Decimal { mantissa, scale, span }
    }

    /// The number: its mantissa and its scale.
    pub fn value(&self) -> (v: (i128, u32))
        ensures
            v == (self@.mantissa, self@.scale),
    {
        (self.mantissa, self.scale)
    }

    /// The number as a whole number: the digits without the point, with the
    /// sign.
    pub fn mantissa(&self) -> (m: i128)
        ensures
            m == self@.mantissa,
    {
        self.mantissa
    }

    /// How many of the digits of the mantissa stand behind the point.
    pub fn scale(&self) -> (s: u32)
        ensures
            s == self@.scale,
    {
        self.scale
    }

    /// The text that the number was parsed from.
    pub fn to_string(&self) -> (s: String)
        ensures
            s@ == self@.span.text(),
    {
        self.unparse()
    }
}

impl Spanned for Decimal {
    closed spec fn span_view(&self) -> SpanView {
        self.span@
    }

    fn span(&self) -> (s: Span) {
        self.span.clone()
    }
}

impl Parsable for Decimal {
    open spec fn parse_spec(s: StreamView) -> Outcome<DecimalView> {
        decimal_parse(s)
    }

    open spec fn parse_value_spec(value: DecimalView, s: StreamView) -> Outcome<DecimalView> {
        default_parse_value_spec(value.span.text(), s, Self::parse_spec(s))
    }

    open spec fn unparse_spec(value: DecimalView) -> Seq<char> {
        value.span.text()
    }

    open spec fn span_of(value: DecimalView) -> SpanView {
        value.span
    }

    fn parse(stream: &mut ParseStream) -> (r: Result<Decimal, Error>) {
        let start = stream.position();
        let c = stream.next_char()?;
        if c == '-' {
            stream.set_position(start + 1);
        }
        match stream.next_digit() {
            Ok(_) => {},
            Err(e) => {
                return Err(e);
            },
        }
        skip_digits(stream);
        match stream.parse_str(".") {
            Ok(_) => {},
            Err(e) => {
                return Err(e);
            },
        }
        match stream.next_digit() {
            Ok(_) => {},
            Err(e) => {
                return Err(e);
            },
        }
        skip_digits(stream);
        let end = stream.position();
        stream.set_position(start);
        let span = stream.span_of_next(if end >= start {
            end - start
        } else {
            0
        });
        stream.set_position(end);
        let text = span.source_text();
        match read_decimal(text.as_str()) {
            Ok((mantissa, scale)) => Ok(Decimal { mantissa, scale, span }),
            Err(message) => Err(Error::new(span, message.as_str())),
        }
    }

    fn parse_value(value: &Decimal, stream: &mut ParseStream) -> (r: Result<Decimal, Error>) {
        match expect_text(value.span.source_text().chars(), stream) {
            Ok(_) => Decimal::parse(stream),
            Err(e) => Err(e),
        }
    }

    fn unparse(&self) -> (s: String) {
        self.span.source_text().as_str().to_owned()
    }

    proof fn lemma_span_of(&self) {
    }

    proof fn lemma_unparse_consumed(s: StreamView) {
        let text = s.source.text;
        if s.position < s.len() {
            let c = text[s.position as int];
            let whole = if c == '-' {
                s.advanced(1)
            } else {
                s
            };
            let n = digit_run(text, whole.position as int);
            let point = whole.advanced(n);
            let dot = exact_match("."@, point);
            if dot.result is Ok {
                lemma_digit_run(text, dot.position as int);
            }
        }
    }
}

impl std::str::FromStr for Decimal {
    type Err = Error;

    /// Parses the text as a value of this type, from its start.
    fn from_str(s: &str) -> (r: Result<Decimal, Error>)
        ensures
            crate::parsing::result_view(r) == <Decimal as Parsable>::parse_spec(
                crate::parsing::stream_over(s@),
            ).result,
    {
        let mut stream = ParseStream::from(s);
        Decimal::parse(&mut stream)
    }
}

} // verus!
