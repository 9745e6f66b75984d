//! Whole numbers in decimal digits.

use crate::indexed_string::IndexedStr;
use crate::parsing::{
    default_parse_value_spec, error_view, expect_text, Error, Outcome, Parsable, ParseStream,
    StreamView,
};
use crate::span::{span_at, Span, SpanView, Spanned};
use crate::text::{decimal_int, digit_value, i128_to_string};
use vstd::prelude::*;
use vstd::std_specs::convert::FromSpecImpl;
use vstd::string::StringExecFns;

verus! {

/// What a parsed number holds: its value and the span of its digits and sign.
pub struct NumberView {
    pub value: int,
    pub span: SpanView,
}

/// How many decimal digits stand in `text` from index `i` on, before the first
/// other character or the end.
pub open spec fn digit_run(text: Seq<char>, i: int) -> nat
    decreases text.len() - i,
{
    if 0 <= i < text.len() && digit_value(text[i]) is Some {
        1 + digit_run(text, i + 1)
    } else {
        0
    }
}

/// A run of digits ends within the text.
pub proof fn lemma_digit_run(text: Seq<char>, i: int)
    requires
        0 <= i <= text.len(),
    ensures
        i + digit_run(text, i) <= text.len(),
        forall|j: int| i <= j < i + digit_run(text, i) ==> digit_value(#[trigger] text[j]) is Some,
    decreases text.len() - i,
{
    if i < text.len() && digit_value(text[i]) is Some {
        lemma_digit_run(text, i + 1);
    }
}

/// The number that the `n` decimal digits of `text` from index `from` on
/// denote. Leading zeros do not count.
pub open spec fn digits_value(text: Seq<char>, from: int, n: nat) -> nat
    decreases n,
{
    if n == 0 {
        0
    } else {
        digits_value(text, from, (n - 1) as nat) * 10 + (match digit_value(text[from + n - 1]) {
            Some(d) => d as nat,
            None => 0,
        })
    }
}

/// What reading a number of at most `max` from the stream `s` gives, for a
/// text that began at `start`. The digits at the position are consumed, all of
/// them. Where there is none the error says so; where they denote more than
/// `max`, the error says that the number is too large, at the span from
/// `start` to the end of the digits.
pub open spec fn magnitude(s: StreamView, start: nat, max: nat) -> Outcome<nat> {
    let n = digit_run(s.source.text, s.position as int);
    let value = digits_value(s.source.text, s.position as int, n);
    if n == 0 {
        Outcome {
            result: Err(error_view(s.current_span(), "expected digit"@)),
            position: s.position,
        }
    } else if value > max {
        Outcome {
            result: Err(
                error_view(
                    span_at(s.source, start as int, (s.position + n) as int),
                    "number too large to fit in target type"@,
                ),
            ),
            position: s.position + n,
        }
    } else {
        Outcome { result: Ok(value), position: s.position + n }
    }
}

/// What parsing a number without sign of at most `max` gives.
pub open spec fn unsigned_parse(s: StreamView, max: nat) -> Outcome<NumberView> {
    let m = magnitude(s, s.position, max);
    Outcome {
        result: match m.result {
            Ok(v) => Ok(
                NumberView {
                    value: v as int,
                    span: span_at(s.source, s.position as int, m.position as int),
                },
            ),
            Err(e) => Err(e),
        },
        position: m.position,
    }
}

/// What parsing a number with an optional minus sign and a magnitude of at
/// most `max` gives. At the end of the input the error says so.
pub open spec fn signed_parse(s: StreamView, max: nat) -> Outcome<NumberView> {
    match s.next_char() {
        None => Outcome { result: Err(s.end_of_input()), position: s.position },
        Some(c) => {
            let digits = if c == '-' {
                s.advanced(1)
            } else {
                s
            };
            let m = magnitude(digits, s.position, max);
            Outcome {
                result: match m.result {
                    Ok(v) => Ok(
                        NumberView {
                            value: if c == '-' {
                                -(v as int)
                            } else {
                                v as int
                            },
                            span: span_at(s.source, s.position as int, m.position as int),
                        },
                    ),
                    Err(e) => Err(e),
                },
                position: m.position,
            }
        },
    }
}

/// Reads the digits at the position as a number of at most `max`.
fn read_magnitude(stream: &mut ParseStream, start: usize, max: u128) -> (r: Result<u128, Error>)
    requires
        start <= old(stream)@.position,
    ensures
        final(stream)@ == old(stream)@.moved_to(
            magnitude(old(stream)@, start as nat, max as nat).position,
        ),
        match r {
            Ok(v) => magnitude(old(stream)@, start as nat, max as nat).result == Ok::<
                nat,
                crate::diagnostic::DiagnosticView,
            >(v as nat) && v <= max,
            Err(e) => magnitude(old(stream)@, start as nat, max as nat).result == Err::<
                nat,
                crate::diagnostic::DiagnosticView,
            >(e@),
        },
{
    let ghost text = stream@.source.text;
    let ghost first = stream@.position as int;
    let mut value: u128 = 0;
    let mut too_large = false;
    let mut n: usize = 0;
    loop
        invariant
            stream@ == old(stream)@.advanced(n as nat),
            text == old(stream)@.source.text,
            first == old(stream)@.position,
            digit_run(text, first) == n + digit_run(text, first + n),
            !too_large ==> value == digits_value(text, first, n as nat) && value <= max,
            too_large ==> digits_value(text, first, n as nat) > max,
        ensures
            digit_run(text, first + n) == 0,
        decreases text.len() - stream@.position,
    {
        match stream.next_digit() {
            Ok(d) => {
                if !too_large {
                    if value > max / 10 {
                        too_large = true;
                    } else {
                        let tens: u128 = value * 10;
                        if d as u128 > max - tens {
                            too_large = true;
                        } else {
                            value = tens + d as u128;
                        }
                    }
                }
                stream.set_position(stream.position() + 1);
                n = n + 1;
            },
            Err(_) => {
                break ;
            },
        }
    }
    if n == 0 {
        return Err(Error::new(stream.current_span(), "expected digit"));
    }
    if too_large {
        let end = stream.position();
        stream.set_position(start);
        let span = stream.span_of_next(end - start);
        stream.set_position(end);
        return Err(Error::new(span, "number too large to fit in target type"));
    }
    Ok(value)
}

/// Reads an optional minus sign and the digits after it as a magnitude of at
/// most `max`; gives whether there was a sign, and the magnitude.
fn read_signed(stream: &mut ParseStream, max: u128) -> (r: Result<(bool, u128, Span), Error>)
    ensures
        final(stream)@ == old(stream)@.moved_to(signed_parse(old(stream)@, max as nat).position),
        match r {
            Ok((negative, v, span)) => signed_parse(old(stream)@, max as nat).result == Ok::<
                NumberView,
                crate::diagnostic::DiagnosticView,
            >(
                NumberView {
                    value: if negative {
                        -(v as int)
                    } else {
                        v as int
                    },
                    span: span@,
                },
            ) && v <= max,
            Err(e) => signed_parse(old(stream)@, max as nat).result == Err::<
                NumberView,
                crate::diagnostic::DiagnosticView,
            >(e@),
        },
{
    let start = stream.position();
    let negative = match stream.next_char() {
        Ok(c) => c == '-',
        Err(e) => {
            return Err(e);
        },
    };
    if negative {
        stream.set_position(start + 1);
    }
    let v = read_magnitude(stream, start, max)?;
    let end = stream.position();
    stream.set_position(start);
    let span = stream.span_of_next(end - start);
    stream.set_position(end);
    Ok((negative, v, span))
}

/// Reads the digits at the position as a number of at most `max`, with their
/// span.
fn read_unsigned(stream: &mut ParseStream, max: u128) -> (r: Result<(u128, Span), Error>)
    ensures
        final(stream)@ == old(stream)@.moved_to(unsigned_parse(old(stream)@, max as nat).position),
        match r {
            Ok((v, span)) => unsigned_parse(old(stream)@, max as nat).result == Ok::<
                NumberView,
                crate::diagnostic::DiagnosticView,
            >(NumberView { value: v as int, span: span@ }) && v <= max,
            Err(e) => unsigned_parse(old(stream)@, max as nat).result == Err::<
                NumberView,
                crate::diagnostic::DiagnosticView,
            >(e@),
        },
{
    let start = stream.position();
    let v = read_magnitude(stream, start, max)?;
    let end = stream.position();
    stream.set_position(start);
    let span = stream.span_of_next(end - start);
    stream.set_position(end);
    Ok((v, span))
}

/// A number that was parsed is written as the text that was consumed.
pub proof fn lemma_number_text(s: StreamView, max: nat)
    requires
        s.position <= s.len(),
    ensures
        unsigned_parse(s, max).result matches Ok(v) ==> s.position <= unsigned_parse(
            s,
            max,
        ).position <= s.len() && v.span.text() == s.source.text.subrange(
            s.position as int,
            unsigned_parse(s, max).position as int,
        ),
        signed_parse(s, max).result matches Ok(v) ==> s.position <= signed_parse(s, max).position
            <= s.len() && v.span.text() == s.source.text.subrange(
            s.position as int,
            signed_parse(s, max).position as int,
        ),
{
    if s.position < s.len() {
        lemma_digit_run(s.source.text, (s.position + 1) as int);
    }
}

/// A number without sign that fits in `u64`.
#[derive(Debug, Hash, PartialEq, Eq)]
pub struct U64(u64, Span);

impl View for U64 {
    type V = NumberView;

    closed spec fn view(&self) -> NumberView {
        NumberView { value: self.0 as int, span: self.1@ }
    }
}

impl Clone for U64 {
    fn clone(&self) -> (r: U64)
        ensures
            r@ == self@,
    {
        U64(self.0, self.1.clone())
    }
}

impl U64 {
    /// The number.
    pub fn value(&self) -> (v: u64)
        ensures
            v == self@.value,
    {
        self.0
    }

    /// The text that the number was parsed from.
    pub fn to_string(&self) -> (s: String)
        ensures
            s@ == self@.span.text(),
    {
        self.unparse()
    }
}

impl Spanned for U64 {
    closed spec fn span_view(&self) -> SpanView {
        self.1@
    }

    fn span(&self) -> (s: Span) {
        self.1.clone()
    }
}

impl Parsable for U64 {
    /// Parsing consumes the digits at the position and fails where there is
    /// none, or where the number does not fit in `u64`.
    open spec fn parse_spec(s: StreamView) -> Outcome<NumberView> {
        unsigned_parse(s, u64::MAX as nat)
    }

    open spec fn parse_value_spec(value: NumberView, s: StreamView) -> Outcome<NumberView> {
        default_parse_value_spec(value.span.text(), s, Self::parse_spec(s))
    }

    open spec fn unparse_spec(value: NumberView) -> Seq<char> {
        value.span.text()
    }

    open spec fn span_of(value: NumberView) -> SpanView {
        value.span
    }

    fn parse(stream: &mut ParseStream) -> (r: Result<U64, Error>) {
        match read_unsigned(stream, u64::MAX as u128) {
            Ok((v, span)) => Ok(U64(v as u64, span)),
            Err(e) => Err(e),
        }
    }

    fn parse_value(value: &U64, stream: &mut ParseStream) -> (r: Result<U64, Error>) {
        match expect_text(value.1.source_text().chars(), stream) {
            Ok(_) => U64::parse(stream),
            Err(e) => Err(e),
        }
    }

    fn unparse(&self) -> (s: String) {
        self.1.source_text().as_str().to_owned()
    }

    proof fn lemma_span_of(&self) {
    }

    proof fn lemma_unparse_consumed(s: StreamView) {
        lemma_number_text(s, u64::MAX as nat);
    }
}

/// A number without sign that fits in `u128`.
#[derive(Debug, Hash, PartialEq, Eq)]
pub struct U128(u128, Span);

impl View for U128 {
    type V = NumberView;

    closed spec fn view(&self) -> NumberView {
        NumberView { value: self.0 as int, span: self.1@ }
    }
}

impl Clone for U128 {
    fn clone(&self) -> (r: U128)
        ensures
            r@ == self@,
    {
        U128(self.0, self.1.clone())
    }
}

impl U128 {
    /// The number.
    pub fn value(&self) -> (v: u128)
        ensures
            v == self@.value,
    {
        self.0
    }

    /// The text that the number was parsed from.
    pub fn to_string(&self) -> (s: String)
        ensures
            s@ == self@.span.text(),
    {
        self.unparse()
    }
}

impl Spanned for U128 {
    closed spec fn span_view(&self) -> SpanView {
        self.1@
    }

    fn span(&self) -> (s: Span) {
        self.1.clone()
    }
}

impl Parsable for U128 {
    /// Parsing consumes the digits at the position and fails where there is
    /// none, or where the number does not fit in `u128`.
    open spec fn parse_spec(s: StreamView) -> Outcome<NumberView> {
        unsigned_parse(s, u128::MAX as nat)
    }

    open spec fn parse_value_spec(value: NumberView, s: StreamView) -> Outcome<NumberView> {
        default_parse_value_spec(value.span.text(), s, Self::parse_spec(s))
    }

    open spec fn unparse_spec(value: NumberView) -> Seq<char> {
        value.span.text()
    }

    open spec fn span_of(value: NumberView) -> SpanView {
        value.span
    }

    fn parse(stream: &mut ParseStream) -> (r: Result<U128, Error>) {
        match read_unsigned(stream, u128::MAX as u128) {
            Ok((v, span)) => Ok(U128(v as u128, span)),
            Err(e) => Err(e),
        }
    }

    fn parse_value(value: &U128, stream: &mut ParseStream) -> (r: Result<U128, Error>) {
        match expect_text(value.1.source_text().chars(), stream) {
            Ok(_) => U128::parse(stream),
            Err(e) => Err(e),
        }
    }

    fn unparse(&self) -> (s: String) {
        self.1.source_text().as_str().to_owned()
    }

    proof fn lemma_span_of(&self) {
    }

    proof fn lemma_unparse_consumed(s: StreamView) {
        lemma_number_text(s, u128::MAX as nat);
    }
}

/// A number with an optional minus sign that fits in `i64`.
#[derive(Debug, Hash, PartialEq, Eq)]
pub struct I64(i64, Span);

impl View for I64 {
    type V = NumberView;

    closed spec fn view(&self) -> NumberView {
        NumberView { value: self.0 as int, span: self.1@ }
    }
}

impl Clone for I64 {
    fn clone(&self) -> (r: I64)
        ensures
            r@ == self@,
    {
        I64(self.0, self.1.clone())
    }
}

impl I64 {
    /// The number.
    pub fn value(&self) -> (v: i64)
        ensures
            v == self@.value,
    {
        self.0
    }

    /// The text that the number was parsed from.
    pub fn to_string(&self) -> (s: String)
        ensures
            s@ == self@.span.text(),
    {
        self.unparse()
    }
}

impl Spanned for I64 {
    closed spec fn span_view(&self) -> SpanView {
        self.1@
    }

    fn span(&self) -> (s: Span) {
        self.1.clone()
    }
}

impl Parsable for I64 {
    /// Parsing consumes a minus sign, if there is one, and the digits after it.
    /// It fails at the end of the input, where no digit follows, and where the
    /// digits denote more than the greatest `i64`.
    open spec fn parse_spec(s: StreamView) -> Outcome<NumberView> {
        signed_parse(s, i64::MAX as nat)
    }

    open spec fn parse_value_spec(value: NumberView, s: StreamView) -> Outcome<NumberView> {
        default_parse_value_spec(value.span.text(), s, Self::parse_spec(s))
    }

    open spec fn unparse_spec(value: NumberView) -> Seq<char> {
        value.span.text()
    }

    open spec fn span_of(value: NumberView) -> SpanView {
        value.span
    }

    fn parse(stream: &mut ParseStream) -> (r: Result<I64, Error>) {
        match read_signed(stream, i64::MAX as u128) {
            Ok((negative, v, span)) => {
                let magnitude = v as i64;
                Ok(I64(if negative {
                    -magnitude
                } else {
                    magnitude
                }, span))
            },
            Err(e) => Err(e),
        }
    }

    fn parse_value(value: &I64, stream: &mut ParseStream) -> (r: Result<I64, Error>) {
        match expect_text(value.1.source_text().chars(), stream) {
            Ok(_) => I64::parse(stream),
            Err(e) => Err(e),
        }
    }

    fn unparse(&self) -> (s: String) {
        self.1.source_text().as_str().to_owned()
    }

    proof fn lemma_span_of(&self) {
    }

    proof fn lemma_unparse_consumed(s: StreamView) {
        lemma_number_text(s, i64::MAX as nat);
    }
}

/// A number with an optional minus sign that fits in `i128`.
#[derive(Debug, Hash, PartialEq, Eq)]
pub struct I128(i128, Span);

impl View for I128 {
    type V = NumberView;

    closed spec fn view(&self) -> NumberView {
        NumberView { value: self.0 as int, span: self.1@ }
    }
}

impl Clone for I128 {
    fn clone(&self) -> (r: I128)
        ensures
            r@ == self@,
    {
        I128(self.0, self.1.clone())
    }
}

impl I128 {
    /// The number.
    pub fn value(&self) -> (v: i128)
        ensures
            v == self@.value,
    {
        self.0
    }

    /// The text that the number was parsed from.
    pub fn to_string(&self) -> (s: String)
        ensures
            s@ == self@.span.text(),
    {
        self.unparse()
    }
}

impl Spanned for I128 {
    closed spec fn span_view(&self) -> SpanView {
        self.1@
    }

    fn span(&self) -> (s: Span) {
        self.1.clone()
    }
}

impl Parsable for I128 {
    /// Parsing consumes a minus sign, if there is one, and the digits after it.
    /// It fails at the end of the input, where no digit follows, and where the
    /// digits denote more than the greatest `i128`.
    open spec fn parse_spec(s: StreamView) -> Outcome<NumberView> {
        signed_parse(s, i128::MAX as nat)
    }

    open spec fn parse_value_spec(value: NumberView, s: StreamView) -> Outcome<NumberView> {
        default_parse_value_spec(value.span.text(), s, Self::parse_spec(s))
    }

    open spec fn unparse_spec(value: NumberView) -> Seq<char> {
        value.span.text()
    }

    open spec fn span_of(value: NumberView) -> SpanView {
        value.span
    }

    fn parse(stream: &mut ParseStream) -> (r: Result<I128, Error>) {
        match read_signed(stream, i128::MAX as u128) {
            Ok((negative, v, span)) => {
                let magnitude = v as i128;
                Ok(I128(if negative {
                    -magnitude
                } else {
                    magnitude
                }, span))
            },
            Err(e) => Err(e),
        }
    }

    fn parse_value(value: &I128, stream: &mut ParseStream) -> (r: Result<I128, Error>) {
        match expect_text(value.1.source_text().chars(), stream) {
            Ok(_) => I128::parse(stream),
            Err(e) => Err(e),
        }
    }

    fn unparse(&self) -> (s: String) {
        self.1.source_text().as_str().to_owned()
    }

    proof fn lemma_span_of(&self) {
    }

    proof fn lemma_unparse_consumed(s: StreamView) {
        lemma_number_text(s, i128::MAX as nat);
    }
}

/// The number that a bound stands for. A bound up to the greatest `i64` stands
/// for itself; a greater one stands for the negative number that has the same
/// 64 bits.
pub open spec fn bound_value(bound: u64) -> int {
    if bound <= 0x7fff_ffff_ffff_ffff {
        bound as int
    } else {
        bound - 0x1_0000_0000_0000_0000
    }
}

/// The number that a bound stands for.
pub fn bound_of(bound: u64) -> (v: i64)
    ensures
        v == bound_value(bound),
{
    if bound <= 0x7fff_ffff_ffff_ffff {
        bound as i64
    } else {
        let below: u64 = u64::MAX - bound;
        -(below as i64) - 1
    }
}

/// The message for a number below the least that is allowed.
pub open spec fn too_small_message(least: int) -> Seq<char> {
    "must be greater than or equal to "@ + decimal_int(least)
}

/// The message for a number above the greatest that is allowed.
pub open spec fn too_great_message(greatest: int) -> Seq<char> {
    "must be less than or equal to "@ + decimal_int(greatest)
}

/// What parsing a number between `least` and `greatest`, both allowed, gives:
/// what parsing an `I64` gives, or an error at the span of the number where
/// it lies outside.
pub open spec fn bounded_parse(s: StreamView, least: int, greatest: int) -> Outcome<NumberView> {
    let parsed = signed_parse(s, i64::MAX as nat);
    match parsed.result {
        Err(e) => parsed,
        Ok(v) => if v.value < least {
            Outcome {
                result: Err(error_view(v.span, too_small_message(least))),
                position: parsed.position,
            }
        } else if v.value > greatest {
            Outcome {
                result: Err(error_view(v.span, too_great_message(greatest))),
                position: parsed.position,
            }
        } else {
            parsed
        },
    }
}

/// An [`I64`] between two bounds, both of them allowed: `BoundedI64<3, 7>`
/// takes 3, 4, 5, 6 and 7. A negative bound is written as the `u64` with the
/// same bits.
#[derive(Debug, Hash, PartialEq, Eq)]
pub struct BoundedI64<const MIN: u64, const MAX: u64>(I64);

impl<const MIN: u64, const MAX: u64> View for BoundedI64<MIN, MAX> {
    type V = NumberView;

    closed spec fn view(&self) -> NumberView {
        self.0@
    }
}

impl<const MIN: u64, const MAX: u64> Clone for BoundedI64<MIN, MAX> {
    fn clone(&self) -> (r: BoundedI64<MIN, MAX>)
        ensures
            r@ == self@,
    {
        BoundedI64(self.0.clone())
    }
}

impl<const MIN: u64, const MAX: u64> BoundedI64<MIN, MAX> {
    /// The number.
    pub fn value(&self) -> (v: i64)
        ensures
            v == self@.value,
    {
        self.0.value()
    }

    /// The text that the number was parsed from.
    pub fn to_string(&self) -> (s: String)
        ensures
            s@ == self@.span.text(),
    {
        self.unparse()
    }
}

impl<const MIN: u64, const MAX: u64> Spanned for BoundedI64<MIN, MAX> {
    closed spec fn span_view(&self) -> SpanView {
        self.0@.span
    }

    fn span(&self) -> (s: Span) {
        self.0.span()
    }
}

impl<const MIN: u64, const MAX: u64> Parsable for BoundedI64<MIN, MAX> {
    /// Parsing parses an `I64` and fails where it lies outside the bounds.
    open spec fn parse_spec(s: StreamView) -> Outcome<NumberView> {
        bounded_parse(s, bound_value(MIN), bound_value(MAX))
    }

    open spec fn parse_value_spec(value: NumberView, s: StreamView) -> Outcome<NumberView> {
        default_parse_value_spec(value.span.text(), s, Self::parse_spec(s))
    }

    open spec fn unparse_spec(value: NumberView) -> Seq<char> {
        value.span.text()
    }

    open spec fn span_of(value: NumberView) -> SpanView {
        value.span
    }

    fn parse(stream: &mut ParseStream) -> (r: Result<BoundedI64<MIN, MAX>, Error>) {
        let number = I64::parse(stream)?;
        let least = bound_of(MIN);
        let greatest = bound_of(MAX);
        if number.0 < least {
            let mut message = String::from_str("must be greater than or equal to ");
            message.append(i128_to_string(least as i128).as_str());
            return Err(Error::new(number.span(), message.as_str()));
        }
        if number.0 > greatest {
            let mut message = String::from_str("must be less than or equal to ");
            message.append(i128_to_string(greatest as i128).as_str());
            return Err(Error::new(number.span(), message.as_str()));
        }
        Ok(BoundedI64(number))
    }

    fn parse_value(value: &BoundedI64<MIN, MAX>, stream: &mut ParseStream) -> (r: Result<
        BoundedI64<MIN, MAX>,
        Error,
    >) {
        match expect_text(value.0.1.source_text().chars(), stream) {
            Ok(_) => Self::parse(stream),
            Err(e) => Err(e),
        }
    }

    fn unparse(&self) -> (s: String) {
        self.0.unparse()
    }

    proof fn lemma_span_of(&self) {
    }

    proof fn lemma_unparse_consumed(s: StreamView) {
        lemma_number_text(s, i64::MAX as nat);
    }
}

impl std::str::FromStr for U64 {
    type Err = Error;

    /// Parses the text as a value of this type, from its start.
    fn from_str(s: &str) -> (r: Result<U64, Error>)
        ensures
            crate::parsing::result_view(r) == <U64 as Parsable>::parse_spec(
                crate::parsing::stream_over(s@),
            ).result,
    {
        let mut stream = ParseStream::from(s);
        U64::parse(&mut stream)
    }
}

impl std::str::FromStr for U128 {
    type Err = Error;

    /// Parses the text as a value of this type, from its start.
    fn from_str(s: &str) -> (r: Result<U128, Error>)
        ensures
            crate::parsing::result_view(r) == <U128 as Parsable>::parse_spec(
                crate::parsing::stream_over(s@),
            ).result,
    {
        let mut stream = ParseStream::from(s);
        U128::parse(&mut stream)
    }
}

impl std::str::FromStr for I64 {
    type Err = Error;

    /// Parses the text as a value of this type, from its start.
    fn from_str(s: &str) -> (r: Result<I64, Error>)
        ensures
            crate::parsing::result_view(r) == <I64 as Parsable>::parse_spec(
                crate::parsing::stream_over(s@),
            ).result,
    {
        let mut stream = ParseStream::from(s);
        I64::parse(&mut stream)
    }
}

impl std::str::FromStr for I128 {
    type Err = Error;

    /// Parses the text as a value of this type, from its start.
    fn from_str(s: &str) -> (r: Result<I128, Error>)
        ensures
            crate::parsing::result_view(r) == <I128 as Parsable>::parse_spec(
                crate::parsing::stream_over(s@),
            ).result,
    {
        let mut stream = ParseStream::from(s);
        I128::parse(&mut stream)
    }
}

impl<const MIN: u64, const MAX: u64> std::str::FromStr for BoundedI64<MIN, MAX> {
    type Err = Error;

    /// Parses the text as a value of this type, from its start.
    fn from_str(s: &str) -> (r: Result<BoundedI64<MIN, MAX>, Error>)
        ensures
            crate::parsing::result_view(r) == <BoundedI64<MIN, MAX> as Parsable>::parse_spec(
                crate::parsing::stream_over(s@),
            ).result,
    {
        let mut stream = ParseStream::from(s);
        BoundedI64::parse(&mut stream)
    }
}

impl From<U64> for u64 {
    /// The number that `value` holds.
    fn from(value: U64) -> (r: u64) {
        value.0
    }
}

impl FromSpecImpl<U64> for u64 {
    open spec fn obeys_from_spec() -> bool {
        true
    }

    open spec fn from_spec(value: U64) -> u64 {
        value@.value as u64
    }
}

impl From<U64> for u128 {
    /// The number that `value` holds.
    fn from(value: U64) -> (r: u128) {
        value.0 as u128
    }
}

impl FromSpecImpl<U64> for u128 {
    open spec fn obeys_from_spec() -> bool {
        true
    }

    open spec fn from_spec(value: U64) -> u128 {
        value@.value as u128
    }
}

impl From<U64> for i128 {
    /// The number that `value` holds.
    fn from(value: U64) -> (r: i128) {
        value.0 as i128
    }
}

impl FromSpecImpl<U64> for i128 {
    open spec fn obeys_from_spec() -> bool {
        true
    }

    open spec fn from_spec(value: U64) -> i128 {
        value@.value as i128
    }
}

impl From<U128> for u128 {
    /// The number that `value` holds.
    fn from(value: U128) -> (r: u128) {
        value.0
    }
}

impl FromSpecImpl<U128> for u128 {
    open spec fn obeys_from_spec() -> bool {
        true
    }

    open spec fn from_spec(value: U128) -> u128 {
        value@.value as u128
    }
}

impl From<I64> for i64 {
    /// The number that `value` holds.
    fn from(value: I64) -> (r: i64) {
        value.0
    }
}

impl FromSpecImpl<I64> for i64 {
    open spec fn obeys_from_spec() -> bool {
        true
    }

    open spec fn from_spec(value: I64) -> i64 {
        value@.value as i64
    }
}

impl From<I64> for i128 {
    /// The number that `value` holds.
    fn from(value: I64) -> (r: i128) {
        value.0 as i128
    }
}

impl FromSpecImpl<I64> for i128 {
    open spec fn obeys_from_spec() -> bool {
        true
    }

    open spec fn from_spec(value: I64) -> i128 {
        value@.value as i128
    }
}

impl From<I128> for i128 {
    /// The number that `value` holds.
    fn from(value: I128) -> (r: i128) {
        value.0
    }
}

impl FromSpecImpl<I128> for i128 {
    open spec fn obeys_from_spec() -> bool {
        true
    }

    open spec fn from_spec(value: I128) -> i128 {
        value@.value as i128
    }
}

impl From<I64> for I128 {
    /// The same number at the same span.
    fn from(value: I64) -> (r: I128)
        ensures
            r@ == value@,
    {
        I128(value.0 as i128, value.1)
    }
}

impl FromSpecImpl<I64> for I128 {
    /// The result is stated by view, in the contract of `from`.
    open spec fn obeys_from_spec() -> bool {
        false
    }

    open spec fn from_spec(value: I64) -> I128 {
        arbitrary()
    }
}

} // verus!
