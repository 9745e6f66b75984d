//! The parse stream: a cursor over a shared source that grammar types consume
//! from, with cheap forks for looking ahead, and the errors that parsing gives.
//!
//! The position of a stream counts characters of its source. Every operation
//! is defined at every position; at and past the end of the source a stream
//! has nothing left.

use crate::diagnostic::{Diagnostic, DiagnosticLevel, DiagnosticView};
use crate::indexed_string::{IndexedStr, IndexedString};
use crate::source::{share, Source, SourceView};
use crate::span::{span_at, Span, SpanView, Spanned};
use crate::text::{
    char_to_digit, decimal, digit_value, is_ascii_alphabetic, is_ascii_alphabetic_char,
    push_decimal, string_from_chars,
};
use std::rc::Rc;
use vstd::prelude::*;
use vstd::slice::slice_subrange;
use vstd::std_specs::convert::FromSpecImpl;
use vstd::string::StringExecFns;

verus! {

/// The view of an error with the given span and message: a diagnostic of level
/// `Error` with no context name and nothing below it.
pub open spec fn error_view(span: SpanView, message: Seq<char>) -> DiagnosticView {
    DiagnosticView {
        level: DiagnosticLevel::Error,
        span,
        message,
        context_name: None,
        children: Seq::empty(),
    }
}

/// The message that says that `what` was expected.
pub open spec fn expected_message(what: Seq<char>) -> Seq<char> {
    "expected `"@ + what + "`"@
}

/// The message that says that `wanted` characters were asked for and `found`
/// were left.
pub open spec fn shortage_message(wanted: nat, found: nat) -> Seq<char> {
    "expected at least "@ + decimal(wanted) + " more characters, found "@ + decimal(found)
}

/// An error of parsing: one diagnostic of level `Error`.
#[derive(PartialEq, Eq, Hash, Debug)]
pub struct Error(Diagnostic);

impl View for Error {
    type V = DiagnosticView;

    closed spec fn view(&self) -> DiagnosticView {
        self.0@
    }
}

impl Error {
    /// An error at `span` with the given message.
    pub fn new(span: Span, message: &str) -> (r: Error)
        ensures
            r@ == error_view(span@, message@),
    {
        let d = Diagnostic::new(DiagnosticLevel::Error, span, message, None, Vec::new());
        proof {
            assert(crate::diagnostic::diagnostic_views(Seq::<Diagnostic>::empty())
                =~= Seq::<DiagnosticView>::empty());
        }
        Error(d)
    }

    /// An error at `span` that says that `expected` was expected there.
    pub fn expected(span: Span, expected: &str) -> (r: Error)
        ensures
            r@ == error_view(span@, expected_message(expected@)),
    {
        let mut message = String::from_str("expected `");
        message.append(expected);
        message.append("`");
        Error::new(span, message.as_str())
    }

    /// The diagnostic that the error holds.
    pub fn diagnostic(&self) -> (d: &Diagnostic)
        ensures
            d@ == self@,
    {
        &self.0
    }
}

impl std::ops::Deref for Error {
    type Target = Diagnostic;

    fn deref(&self) -> (d: &Diagnostic)
        ensures
            d@ == self@,
    {
        &self.0
    }
}

impl Spanned for Error {
    open spec fn span_view(&self) -> SpanView {
        self@.span
    }

    fn span(&self) -> (s: Span) {
        self.0.span()
    }
}

/// What a [`ParseStream`] holds: its source and its position in it.
pub struct StreamView {
    pub source: SourceView,
    pub position: nat,
}

impl StreamView {
    /// The number of characters of the source.
    pub open spec fn len(self) -> nat {
        self.source.text.len()
    }

    /// The position, lowered to the length of the source.
    pub open spec fn at(self) -> int {
        if self.position > self.len() {
            self.len() as int
        } else {
            self.position as int
        }
    }

    /// The text from the position to the end of the source.
    pub open spec fn remaining(self) -> Seq<char> {
        self.source.text.subrange(self.at(), self.len() as int)
    }

    /// The span of the one character at the position; empty at the end.
    pub open spec fn current_span(self) -> SpanView {
        span_at(
            self.source,
            self.position as int,
            if self.position < self.len() {
                (self.position + 1) as int
            } else {
                self.len() as int
            },
        )
    }

    /// The span from the position to the end of the source.
    pub open spec fn remaining_span(self) -> SpanView {
        span_at(self.source, self.position as int, self.len() as int)
    }

    /// The span of the `n` characters from the position on.
    pub open spec fn span_of_next(self, n: nat) -> SpanView {
        span_at(self.source, self.position as int, (self.position + n) as int)
    }

    /// The character at the position, if there is one.
    pub open spec fn next_char(self) -> Option<char> {
        if self.position < self.len() {
            Some(self.source.text[self.position as int])
        } else {
            None
        }
    }

    /// The same stream `n` characters on.
    pub open spec fn advanced(self, n: nat) -> StreamView {
        StreamView { source: self.source, position: self.position + n }
    }

    /// The same stream at position `p`.
    pub open spec fn moved_to(self, p: nat) -> StreamView {
        StreamView { source: self.source, position: p }
    }

    /// The error that the end of the input gives where a character is asked for.
    pub open spec fn end_of_input(self) -> DiagnosticView {
        error_view(self.current_span(), "unexpected end of input"@)
    }

    /// What looking at the next character as a digit gives.
    pub open spec fn next_digit(self) -> Result<u8, DiagnosticView> {
        match self.next_char() {
            None => Err(self.end_of_input()),
            Some(c) => match digit_value(c) {
                Some(d) => Ok(d),
                None => Err(error_view(self.current_span(), "expected digit (0-9)"@)),
            },
        }
    }

    /// What looking at the next character as a letter gives.
    pub open spec fn next_alpha(self) -> Result<char, DiagnosticView> {
        match self.next_char() {
            None => Err(self.end_of_input()),
            Some(c) => if is_ascii_alphabetic_char(c) {
                Ok(c)
            } else {
                Err(error_view(self.current_span(), "expected alphabetic (A-Z|a-z)"@))
            },
        }
    }
}

/// A result of parsing by what it holds.
pub open spec fn result_view<T: View>(r: Result<T, Error>) -> Result<T::V, DiagnosticView> {
    match r {
        Ok(v) => Ok(v@),
        Err(e) => Err(e@),
    }
}

/// A result of parsing a plain value by what it holds.
pub open spec fn plain_result<T>(r: Result<T, Error>) -> Result<T, DiagnosticView> {
    match r {
        Ok(v) => Ok(v),
        Err(e) => Err(e@),
    }
}

/// A cursor over a shared source.
#[derive(Debug, Hash)]
pub struct ParseStream {
    source: Rc<Source>,
    /// The position in the source, in characters from its start. Consuming
    /// moves it forward.
    pub position: usize,
}

impl View for ParseStream {
    type V = StreamView;

    closed spec fn view(&self) -> StreamView {
        StreamView { source: self.source@, position: self.position as nat }
    }
}

impl ParseStream {
    /// The position in the source, in characters from its start.
    pub fn position(&self) -> (p: usize)
        ensures
            p == self@.position,
    {
        self.position
    }

    /// Moves the stream to position `p` of its source.
    pub fn set_position(&mut self, p: usize)
        ensures
            final(self)@ == old(self)@.moved_to(p as nat),
    {
        self.position = p;
    }

    /// A stream at the start of `source`.
    pub fn new(source: Rc<Source>) -> (r: ParseStream)
        ensures
            r@ == (StreamView { source: source@, position: 0 }),
    {
        ParseStream { source, position: 0 }
    }

    /// The source that the stream reads.
    pub fn source(&self) -> (s: &Rc<Source>)
        ensures
            s@ == self@.source,
    {
        &self.source
    }

    /// The span of the character at the position; an empty span at the end of
    /// the input.
    pub fn current_span(&self) -> (s: Span)
        ensures
            s@ == self@.current_span(),
    {
        let end: usize = if self.position < self.source.len() {
            self.position + 1
        } else {
            self.source.len()
        };
        Span::new(share(&self.source), self.position..end)
    }

    /// The span from the position to the end of the input.
    pub fn remaining_span(&self) -> (s: Span)
        ensures
            s@ == self@.remaining_span(),
    {
        Span::new(share(&self.source), self.position..self.source.len())
    }

    /// The span of the `n` characters from the position on, as far as the
    /// source reaches.
    pub fn span_of_next(&self, n: usize) -> (s: Span)
        ensures
            s@ == self@.span_of_next(n as nat),
    {
        let len: usize = self.source.len();
        let end: usize = if self.position >= len || n >= len - self.position {
            len
        } else {
            self.position + n
        };
        Span::new(share(&self.source), self.position..end)
    }

    /// The text that is left: from the position to the end of the input.
    pub fn remaining(&self) -> (s: &str)
        ensures
            s@ == self@.remaining(),
    {
        self.source.text().slice(self.position..).into_str()
    }

    /// The number of characters that are left.
    pub fn remaining_len(&self) -> (n: usize)
        ensures
            n == self@.remaining().len(),
            n == self@.len() - self@.at(),
            self@.len() <= usize::MAX,
    {
        let len: usize = self.source.len();
        if self.position >= len {
            0
        } else {
            len - self.position
        }
    }

    /// A second cursor at the same position of the same source. Moving one of
    /// the two leaves the other where it is.
    pub fn fork(&self) -> (f: ParseStream)
        ensures
            f@ == self@,
    {
        ParseStream { source: share(&self.source), position: self.position }
    }

    /// What consuming `num_chars` characters would give, tried on a fork: the
    /// stream itself stays where it is.
    pub fn peek_consume(&mut self, num_chars: usize) -> (r: Result<Span, Error>)
        ensures
            final(self)@ == old(self)@,
            old(self)@.remaining().len() >= num_chars ==> result_view(r) == Ok::<
                SpanView,
                DiagnosticView,
            >(old(self)@.span_of_next(num_chars as nat)),
            old(self)@.remaining().len() < num_chars ==> result_view(r) == Err::<
                SpanView,
                DiagnosticView,
            >(
                error_view(
                    old(self)@.remaining_span(),
                    shortage_message(num_chars as nat, old(self)@.remaining().len()),
                ),
            ),
    {
        let mut fork = self.fork();
        fork.consume(num_chars)
    }

    /// Consumes `num_chars` characters and gives their span. Where fewer are
    /// left, the stream stays where it is and the error says how many were left.
    pub fn consume(&mut self, num_chars: usize) -> (r: Result<Span, Error>)
        ensures
            old(self)@.remaining().len() >= num_chars ==> {
                &&& result_view(r) == Ok::<SpanView, DiagnosticView>(
                    old(self)@.span_of_next(num_chars as nat),
                )
                &&& final(self)@ == old(self)@.advanced(num_chars as nat)
            },
            old(self)@.remaining().len() < num_chars ==> {
                &&& result_view(r) == Err::<SpanView, DiagnosticView>(
                    error_view(
                        old(self)@.remaining_span(),
                        shortage_message(num_chars as nat, old(self)@.remaining().len()),
                    ),
                )
                &&& final(self)@ == old(self)@
            },
    {
        let left: usize = self.remaining_len();
        if left < num_chars {
            let mut message = String::from_str("expected at least ");
            push_decimal(&mut message, num_chars as u128);
            message.append(" more characters, found ");
            push_decimal(&mut message, left as u128);
            return Err(Error::new(self.remaining_span(), message.as_str()));
        }
        let span = self.span_of_next(num_chars);
        self.position = self.position + num_chars;
        Ok(span)
    }

    /// Consumes all that is left and gives its span.
    pub fn consume_remaining(&mut self) -> (s: Span)
        ensures
            s@ == old(self)@.remaining_span(),
            final(self)@ == old(self)@.moved_to(old(self)@.len()),
    {
        let span = self.remaining_span();
        self.position = self.source.len();
        span
    }

    /// The next character, which stays in the stream. At the end of the input
    /// there is none.
    pub fn next_char(&self) -> (r: Result<char, Error>)
        ensures
            plain_result(r) == (match self@.next_char() {
                Some(c) => Ok::<char, DiagnosticView>(c),
                None => Err(self@.end_of_input()),
            }),
            r is Ok ==> self@.position < usize::MAX,
    {
        let chars = self.source.text().chars();
        if self.position < chars.len() {
            Ok(chars[self.position])
        } else {
            Err(Error::new(self.current_span(), "unexpected end of input"))
        }
    }

    /// Consumes the next character.
    pub fn parse_char(&mut self) -> (r: Result<char, Error>)
        ensures
            plain_result(r) == (match old(self)@.next_char() {
                Some(c) => Ok::<char, DiagnosticView>(c),
                None => Err(old(self)@.end_of_input()),
            }),
            final(self)@ == (if r is Ok {
                old(self)@.advanced(1)
            } else {
                old(self)@
            }),
    {
        let c = self.next_char()?;
        self.position = self.position + 1;
        Ok(c)
    }

    /// The next character as a decimal digit, which stays in the stream.
    pub fn next_digit(&self) -> (r: Result<u8, Error>)
        ensures
            plain_result(r) == self@.next_digit(),
            r matches Ok(d) ==> d < 10,
            r is Ok ==> self@.position < usize::MAX,
    {
        let c = self.next_char()?;
        match char_to_digit(c) {
            Some(d) => Ok(d),
            None => Err(Error::new(self.current_span(), "expected digit (0-9)")),
        }
    }

    /// Consumes the next character if it is a decimal digit.
    pub fn parse_digit(&mut self) -> (r: Result<u8, Error>)
        ensures
            plain_result(r) == old(self)@.next_digit(),
            r matches Ok(d) ==> d < 10,
            final(self)@ == (if r is Ok {
                old(self)@.advanced(1)
            } else {
                old(self)@
            }),
    {
        let d = self.next_digit()?;
        self.position = self.position + 1;
        Ok(d)
    }

    /// The next character as an ASCII letter, which stays in the stream.
    pub fn next_alpha(&self) -> (r: Result<char, Error>)
        ensures
            plain_result(r) == self@.next_alpha(),
            r is Ok ==> self@.position < usize::MAX,
    {
        let c = self.next_char()?;
        if !is_ascii_alphabetic(c) {
            return Err(Error::new(self.current_span(), "expected alphabetic (A-Z|a-z)"));
        }
        Ok(c)
    }

    /// Consumes the next character if it is an ASCII letter.
    pub fn parse_alpha(&mut self) -> (r: Result<char, Error>)
        ensures
            plain_result(r) == old(self)@.next_alpha(),
            final(self)@ == (if r is Ok {
                old(self)@.advanced(1)
            } else {
                old(self)@
            }),
    {
        let c = self.next_alpha()?;
        self.position = self.position + 1;
        Ok(c)
    }
}

impl Clone for ParseStream {
    fn clone(&self) -> (r: ParseStream)
        ensures
            r@ == self@,
    {
        self.fork()
    }
}

impl PartialEq for ParseStream {
    fn eq(&self, other: &ParseStream) -> (r: bool) {
        self.position == other.position && self.source.same(&*other.source)
    }
}

impl vstd::std_specs::cmp::PartialEqSpecImpl for ParseStream {
    open spec fn obeys_eq_spec() -> bool {
        true
    }

    open spec fn eq_spec(&self, other: &ParseStream) -> bool {
        self@ == other@
    }
}

impl Eq for ParseStream {

}

impl<'a> From<&'a str> for ParseStream {
    fn from(value: &'a str) -> (r: ParseStream)
        ensures
            r@ == (StreamView { source: SourceView { text: value@, path: None }, position: 0 }),
    {
        ParseStream::new(Rc::new(Source::from_str(value)))
    }
}

impl<'a> FromSpecImpl<&'a str> for ParseStream {
    /// The result is stated by view, in the contract of `from`.
    open spec fn obeys_from_spec() -> bool {
        false
    }

    open spec fn from_spec(value: &'a str) -> ParseStream {
        arbitrary()
    }
}

impl From<String> for ParseStream {
    fn from(value: String) -> (r: ParseStream)
        ensures
            r@ == (StreamView { source: SourceView { text: value@, path: None }, position: 0 }),
    {
        ParseStream::new(Rc::new(Source::from_str(value.as_str())))
    }
}

impl FromSpecImpl<String> for ParseStream {
    /// The result is stated by view, in the contract of `from`.
    open spec fn obeys_from_spec() -> bool {
        false
    }

    open spec fn from_spec(value: String) -> ParseStream {
        arbitrary()
    }
}

impl From<Source> for ParseStream {
    fn from(value: Source) -> (r: ParseStream)
        ensures
            r@ == (StreamView { source: value@, position: 0 }),
    {
        ParseStream::new(Rc::new(value))
    }
}

impl FromSpecImpl<Source> for ParseStream {
    /// The result is stated by view, in the contract of `from`.
    open spec fn obeys_from_spec() -> bool {
        false
    }

    open spec fn from_spec(value: Source) -> ParseStream {
        arbitrary()
    }
}

/// How many characters `a` and `b` have in common from index `i` on, before
/// they first differ or one of them ends.
pub open spec fn common_from(a: Seq<char>, b: Seq<char>, i: int) -> nat
    decreases a.len() - i,
{
    if 0 <= i < a.len() && i < b.len() && a[i] == b[i] {
        1 + common_from(a, b, i + 1)
    } else {
        0
    }
}

/// The length of the longest common prefix of `a` and `b`.
pub open spec fn common_prefix_len(a: Seq<char>, b: Seq<char>) -> nat {
    common_from(a, b, 0)
}

/// From index `i` on the two texts agree for `common_from` characters and
/// then differ, or one of them ends.
pub proof fn lemma_common_from(a: Seq<char>, b: Seq<char>, i: int)
    requires
        0 <= i,
    ensures
        i <= a.len() && i <= b.len() ==> i + common_from(a, b, i) <= a.len() && i + common_from(
            a,
            b,
            i,
        ) <= b.len(),
        forall|j: int| i <= j < i + common_from(a, b, i) ==> a[j] == b[j],
        ({
            let k = i + common_from(a, b, i);
            k < a.len() && k < b.len() ==> a[k] != b[k]
        }),
    decreases a.len() - i,
{
    if i < a.len() && i < b.len() && a[i] == b[i] {
        lemma_common_from(a, b, i + 1);
    }
}

/// The longest common prefix is a prefix of both texts, and the characters that
/// follow it, where both texts have one, differ. One text is a prefix of the
/// other exactly where the common prefix is all of it.
pub proof fn lemma_common_prefix(a: Seq<char>, b: Seq<char>)
    ensures
        common_prefix_len(a, b) <= a.len(),
        common_prefix_len(a, b) <= b.len(),
        a.take(common_prefix_len(a, b) as int) == b.take(common_prefix_len(a, b) as int),
        ({
            let k = common_prefix_len(a, b) as int;
            k < a.len() && k < b.len() ==> a[k] != b[k]
        }),
        a.is_prefix_of(b) <==> common_prefix_len(a, b) == a.len(),
{
    lemma_common_from(a, b, 0);
}

/// The length of the longest common prefix of `a` and `b`.
pub fn common_len(a: &[char], b: &[char]) -> (k: usize)
    ensures
        k == common_prefix_len(a@, b@),
        k <= a@.len(),
        k <= b@.len(),
{
    let mut i: usize = 0;
    while i < a.len() && i < b.len() && a[i] == b[i]
        invariant
            i <= a@.len(),
            i <= b@.len(),
            common_prefix_len(a@, b@) == i + common_from(a@, b@, i as int),
        decreases a@.len() - i,
    {
        i += 1;
    }
    i
}

/// The longest common prefix of two texts.
pub fn common_prefix(s1: &str, s2: &str) -> (r: String)
    ensures
        r@ == s1@.take(common_prefix_len(s1@, s2@) as int),
{
    let a = IndexedString::from_str(s1);
    let b = IndexedString::from_str(s2);
    let k = common_len(a.chars(), b.chars());
    a.slice(0..k).as_str().to_owned()
}

/// What an attempt to parse leaves: the value or the error, and the position
/// of the stream afterwards. The source of the stream stays the same.
pub struct Outcome<V> {
    pub result: Result<V, DiagnosticView>,
    pub position: nat,
}

/// The outcome that the result `r` and the stream `after` make.
pub open spec fn outcome<T: View>(r: Result<T, Error>, after: StreamView) -> Outcome<T::V> {
    Outcome { result: result_view(r), position: after.position }
}

/// The outcome where `text` was to be matched and the stream does not start
/// with it: the stream moves past what the two have in common, and the error
/// names the rest of `text` at the span that the rest would have had.
pub open spec fn mismatch<V>(text: Seq<char>, s: StreamView) -> Outcome<V> {
    let k = common_prefix_len(text, s.remaining());
    Outcome {
        result: Err(
            error_view(
                span_at(s.source, (s.position + k) as int, (s.position + text.len()) as int),
                expected_message(text.skip(k as int)),
            ),
        ),
        position: s.position + k,
    }
}

/// The outcome where `text` was to be matched and the stream does not start
/// with it, for the types that report at the first character that differs: the
/// stream moves past what the two have in common, and the error names the rest
/// of `text` at the character where the stream then stands.
pub open spec fn mismatch_at<V>(text: Seq<char>, s: StreamView) -> Outcome<V> {
    let k = common_prefix_len(text, s.remaining());
    Outcome {
        result: Err(
            error_view(s.advanced(k).current_span(), expected_message(text.skip(k as int))),
        ),
        position: s.position + k,
    }
}

/// A mismatch is reported at the first character that differs: the stream
/// moves past the longest common prefix of the text and what is left of it, up
/// to where the two first differ or the stream ends; the span of the error
/// starts there, and its message names the text from there on.
pub proof fn lemma_mismatch_precision(text: Seq<char>, s: StreamView)
    requires
        s.position <= s.len(),
        !text.is_prefix_of(s.remaining()),
    ensures
        ({
            let k = common_prefix_len(text, s.remaining()) as int;
            let found = mismatch_at::<SpanView>(text, s);
            let wide = mismatch::<SpanView>(text, s);
            &&& k < text.len()
            &&& s.position + k <= s.len()
            &&& forall|i: int| 0 <= i < k ==> text[i] == s.source.text[s.position + i]
            &&& s.position + k < s.len() ==> text[k] != s.source.text[s.position + k]
            &&& found.position == s.position + k
            &&& wide.position == s.position + k
            &&& found.result matches Err(e) && e.span.start == s.position + k && e.message
                == expected_message(text.skip(k))
            &&& wide.result matches Err(e) && e.span.start == s.position + k && e.message
                == expected_message(text.skip(k))
        }),
{
    lemma_common_from(text, s.remaining(), 0);
}

/// A type of the grammar: a value of it is parsed from a stream, and written
/// back as the text that it was parsed from.
pub trait Parsable: Spanned + View + Sized {
    /// What parsing a value from the stream `s` gives.
    spec fn parse_spec(s: StreamView) -> Outcome<Self::V>;

    /// What matching the given value against the stream `s` gives.
    spec fn parse_value_spec(value: Self::V, s: StreamView) -> Outcome<Self::V>;

    /// The text that a value is written as.
    spec fn unparse_spec(value: Self::V) -> Seq<char>;

    /// The span of a value.
    spec fn span_of(value: Self::V) -> SpanView;

    /// Parses a value from the stream.
    fn parse(stream: &mut ParseStream) -> (r: Result<Self, Error>)
        ensures
            final(stream)@.source == old(stream)@.source,
            outcome(r, final(stream)@) == Self::parse_spec(old(stream)@),
    ;

    /// Matches the given value against the stream.
    fn parse_value(value: &Self, stream: &mut ParseStream) -> (r: Result<Self, Error>)
        ensures
            final(stream)@.source == old(stream)@.source,
            outcome(r, final(stream)@) == Self::parse_value_spec(value@, old(stream)@),
    ;

    /// The text of the value: the reverse of parsing.
    fn unparse(&self) -> (s: String)
        ensures
            s@ == Self::unparse_spec(self@),
    ;

    /// The span of a value is the span of what it holds.
    proof fn lemma_span_of(&self)
        ensures
            self.span_view() == Self::span_of(self@),
    ;

    /// A value that was parsed from a stream within its source is written as
    /// the text that parsing consumed.
    proof fn lemma_unparse_consumed(s: StreamView)
        requires
            s.position <= s.len(),
            Self::parse_spec(s).result is Ok,
        ensures
            s.position <= Self::parse_spec(s).position <= s.len(),
            Self::unparse_spec(Self::parse_spec(s).result->Ok_0) == s.source.text.subrange(
                s.position as int,
                Self::parse_spec(s).position as int,
            ),
    ;
}

/// The stream at the start of a source that holds `text` and names no file.
pub open spec fn stream_over(text: Seq<char>) -> StreamView {
    StreamView { source: SourceView { text, path: None }, position: 0 }
}

/// Parsing and writing back are inverse: where a text parses as a whole, the
/// value is written as that very text, and so the text that is written parses
/// again to the same value.
pub proof fn lemma_round_trip<T: Parsable>(text: Seq<char>)
    requires
        T::parse_spec(stream_over(text)).result is Ok,
        T::parse_spec(stream_over(text)).position == text.len(),
    ensures
        T::unparse_spec(T::parse_spec(stream_over(text)).result->Ok_0) == text,
        T::parse_spec(
            stream_over(T::unparse_spec(T::parse_spec(stream_over(text)).result->Ok_0)),
        ) == T::parse_spec(stream_over(text)),
{
    T::lemma_unparse_consumed(stream_over(text));
}

/// What matching a value gives for a type that is written as the text of its
/// span, `text`: where the stream starts with that text, what parsing gives,
/// `parsed`; else a mismatch.
pub open spec fn default_parse_value_spec<V>(
    text: Seq<char>,
    s: StreamView,
    parsed: Outcome<V>,
) -> Outcome<V> {
    if text.is_prefix_of(s.remaining()) {
        parsed
    } else {
        mismatch(text, s)
    }
}

/// The first step of matching a value by the text of its span: where the
/// stream starts with `text` it is left as it stands, for a value to be parsed;
/// else it moves past the longest common prefix, and the error names the rest
/// of `text` at the span where that rest was expected.
pub fn expect_text(text: &[char], stream: &mut ParseStream) -> (r: Result<(), Error>)
    ensures
        final(stream)@.source == old(stream)@.source,
        text@.is_prefix_of(old(stream)@.remaining()) ==> r is Ok && final(stream)@ == old(stream)@,
        !text@.is_prefix_of(old(stream)@.remaining()) ==> r is Err && outcome(r, final(stream)@)
            == mismatch::<()>(text@, old(stream)@),
{
    match stream.match_text(text) {
        Ok(_) => Ok(()),
        Err(k) => {
            stream.position = stream.position + k;
            let at = stream.span_of_next(text.len() - k);
            let rest = string_from_chars(slice_subrange(text, k, text.len()));
            Err(Error::expected(at, rest.as_str()))
        },
    }
}

impl ParseStream {
    /// Compares `text` with the start of what is left of the stream: `Ok` with
    /// the length of `text` where the stream starts with it, else `Err` with the
    /// length of the longest common prefix. The stream stays where it is.
    pub fn match_text(&self, text: &[char]) -> (r: Result<usize, usize>)
        ensures
            match r {
                Ok(n) => text@.is_prefix_of(self@.remaining()) && n == text@.len()
                    && self@.position + n <= usize::MAX,
                Err(k) => !text@.is_prefix_of(self@.remaining()) && k == common_prefix_len(
                    text@,
                    self@.remaining(),
                ) && k < text@.len() && self@.position + k <= usize::MAX,
            },
    {
        let chars = self.source.text().chars();
        let at: usize = if self.position > chars.len() {
            chars.len()
        } else {
            self.position
        };
        let rest = slice_subrange(chars, at, chars.len());
        let k = common_len(text, rest);
        proof {
            lemma_common_prefix(text@, rest@);
        }
        if k == text.len() {
            Ok(k)
        } else {
            Err(k)
        }
    }

    /// Parses a value of type `T`.
    pub fn parse<T: Parsable>(&mut self) -> (r: Result<T, Error>)
        ensures
            final(self)@.source == old(self)@.source,
            outcome(r, final(self)@) == T::parse_spec(old(self)@),
    {
        T::parse(self)
    }

    /// Matches the given value of type `T`.
    pub fn parse_value<T: Parsable>(&mut self, value: T) -> (r: Result<T, Error>)
        ensures
            final(self)@.source == old(self)@.source,
            outcome(r, final(self)@) == T::parse_value_spec(value@, old(self)@),
    {
        T::parse_value(&value, self)
    }

    /// Whether a value of type `T` can be parsed at the position. The stream
    /// stays where it is.
    pub fn peek<T: Peekable>(&self) -> (b: bool)
        ensures
            b == T::peek_spec(self@),
    {
        T::peek(self)
    }

    /// Whether the given value can be matched at the position. The stream stays
    /// where it is.
    pub fn peek_value<T: Peekable>(&self, value: T) -> (b: bool)
        ensures
            b == T::peek_value_spec(value, self@),
    {
        T::peek_value(value, self)
    }
}

/// A type that a stream can be asked about without consuming anything.
pub trait Peekable: Sized {
    /// Whether a value of the type can be parsed from the stream `s`.
    spec fn peek_spec(s: StreamView) -> bool;

    /// Whether the given value can be matched against the stream `s`.
    spec fn peek_value_spec(value: Self, s: StreamView) -> bool;

    /// Whether a value of the type can be parsed at the position of the stream.
    fn peek(stream: &ParseStream) -> (b: bool)
        ensures
            b == Self::peek_spec(stream@),
    ;

    /// Whether the given value can be matched at the position of the stream.
    fn peek_value(value: Self, stream: &ParseStream) -> (b: bool)
        ensures
            b == Self::peek_value_spec(value, stream@),
    ;
}

impl<T: Parsable> Peekable for T {
    open spec fn peek_spec(s: StreamView) -> bool {
        T::parse_spec(s).result is Ok
    }

    open spec fn peek_value_spec(value: T, s: StreamView) -> bool {
        T::parse_value_spec(value@, s).result is Ok
    }

    fn peek(stream: &ParseStream) -> (b: bool) {
        let mut fork = stream.fork();
        T::parse(&mut fork).is_ok()
    }

    fn peek_value(value: T, stream: &ParseStream) -> (b: bool) {
        let mut fork = stream.fork();
        T::parse_value(&value, &mut fork).is_ok()
    }
}

impl<'a> Peekable for &'a str {
    open spec fn peek_spec(s: StreamView) -> bool {
        true
    }

    open spec fn peek_value_spec(value: &'a str, s: StreamView) -> bool {
        value@.is_prefix_of(s.remaining())
    }

    fn peek(stream: &ParseStream) -> (b: bool) {
        true
    }

    fn peek_value(value: &'a str, stream: &ParseStream) -> (b: bool) {
        stream.peek_str(value)
    }
}

impl Peekable for String {
    open spec fn peek_spec(s: StreamView) -> bool {
        true
    }

    open spec fn peek_value_spec(value: String, s: StreamView) -> bool {
        value@.is_prefix_of(s.remaining())
    }

    fn peek(stream: &ParseStream) -> (b: bool) {
        true
    }

    fn peek_value(value: String, stream: &ParseStream) -> (b: bool) {
        stream.peek_str(value.as_str())
    }
}

impl<'a> Peekable for &'a String {
    open spec fn peek_spec(s: StreamView) -> bool {
        true
    }

    open spec fn peek_value_spec(value: &'a String, s: StreamView) -> bool {
        value@.is_prefix_of(s.remaining())
    }

    fn peek(stream: &ParseStream) -> (b: bool) {
        true
    }

    fn peek_value(value: &'a String, stream: &ParseStream) -> (b: bool) {
        stream.peek_str(value.as_str())
    }
}

impl ParseStream {
    /// Whether what is left of the stream starts with `s`.
    pub fn peek_str(&self, s: &str) -> (b: bool)
        ensures
            b == s@.is_prefix_of(self@.remaining()),
    {
        let text = IndexedString::from_str(s);
        self.match_text(text.chars()).is_ok()
    }
}

/// Parses `text` as a value of type `T`, from its start.
pub fn parse<T: Parsable>(text: &str) -> (r: Result<T, Error>)
    ensures
        result_view(r) == T::parse_spec(stream_over(text@)).result,
{
    let mut stream = ParseStream::new(Rc::new(Source::from_str(text)));
    T::parse(&mut stream)
}

} // verus!
