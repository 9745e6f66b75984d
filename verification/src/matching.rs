//! Matching given texts against a stream: one text or the first of several,
//! as they stand or without regard to case.

use crate::indexed_string::{IndexedStr, IndexedString};
use crate::parsable::exact::{exact_match, Exact};
use crate::parsing::{
    common_len, common_prefix_len, error_view, expected_message, outcome, result_view,
    shortage_message, Error, Outcome, Parsable, ParseStream, StreamView,
};
use crate::span::{span_at, SpanView, Spanned};
use crate::text::{lowercase, string_from_chars, to_lowercase};
use vstd::prelude::*;
use vstd::slice::slice_subrange;
use vstd::string::StringExecFns;

verus! {

/// The first `n` of `texts`, each between backticks, with a comma and a space
/// between two of them.
pub open spec fn quoted_list(texts: Seq<Seq<char>>, n: nat) -> Seq<char>
    decreases n,
{
    if n == 0 || n > texts.len() {
        Seq::empty()
    } else if n == 1 {
        "`"@ + texts[0] + "`"@
    } else {
        quoted_list(texts, (n - 1) as nat) + ", "@ + "`"@ + texts[n - 1] + "`"@
    }
}

/// The message that says that one of `texts` was expected.
pub open spec fn one_of_message(texts: Seq<Seq<char>>) -> Seq<char> {
    "expected one of "@ + quoted_list(texts, texts.len())
}

/// The views of the strings in `values`.
pub open spec fn text_views(values: Seq<&str>) -> Seq<Seq<char>> {
    Seq::new(values.len(), |i: int| values[i]@)
}

/// The first index from `i` on at which one of `texts` is a prefix of `rest`.
pub open spec fn first_prefix(texts: Seq<Seq<char>>, rest: Seq<char>, i: nat) -> Option<nat>
    decreases texts.len() - i,
{
    if i >= texts.len() {
        None
    } else if texts[i as int].is_prefix_of(rest) {
        Some(i)
    } else {
        first_prefix(texts, rest, i + 1)
    }
}

/// What matching the text `value` without regard to case gives, where
/// `lowered` is the lower case of `value` and `rest` that of what is left of the
/// stream `s`. Where `rest` starts with `lowered`, as many characters as
/// `lowered` has are consumed, and the value is their span; where the stream has
/// fewer left, it stays and the error says so. Else the stream moves past what
/// `lowered` and `rest` have in common, as far as it reaches, and the error
/// names the rest of `value`, in its own case.
pub open spec fn caseless_match(
    value: Seq<char>,
    lowered: Seq<char>,
    rest: Seq<char>,
    s: StreamView,
) -> Outcome<SpanView> {
    if lowered.is_prefix_of(rest) {
        if s.remaining().len() >= lowered.len() {
            Outcome {
                result: Ok(s.span_of_next(lowered.len())),
                position: s.position + lowered.len(),
            }
        } else {
            Outcome {
                result: Err(
                    error_view(
                        s.remaining_span(),
                        shortage_message(lowered.len(), s.remaining().len()),
                    ),
                ),
                position: s.position,
            }
        }
    } else {
        let k = common_prefix_len(lowered, rest);
        let moved = if k <= s.remaining().len() {
            k
        } else {
            s.remaining().len()
        };
        let named = if k <= value.len() {
            value.skip(k as int)
        } else {
            Seq::empty()
        };
        Outcome {
            result: Err(
                error_view(
                    span_at(
                        s.source,
                        (s.position + moved) as int,
                        (s.position + lowered.len()) as int,
                    ),
                    expected_message(named),
                ),
            ),
            position: s.position + moved,
        }
    }
}

/// What matching the first of `texts` that the stream starts with gives: its
/// span and its index, or an error that lists them all.
pub open spec fn any_str_match(texts: Seq<Seq<char>>, s: StreamView) -> Outcome<(SpanView, usize)> {
    match first_prefix(texts, s.remaining(), 0) {
        Some(i) => Outcome {
            result: Ok((s.span_of_next(texts[i as int].len()), i as usize)),
            position: s.position + texts[i as int].len(),
        },
        None => Outcome {
            result: Err(error_view(s.current_span(), one_of_message(texts))),
            position: s.position,
        },
    }
}

/// The lower case of each of `texts`.
pub open spec fn lowercase_all(texts: Seq<Seq<char>>) -> Seq<Seq<char>> {
    Seq::new(texts.len(), |i: int| lowercase(texts[i]))
}

/// What matching the first of `texts` that the stream starts with, without
/// regard to case, gives: what matching that text gives and its index, or an
/// error that lists them all.
pub open spec fn any_caseless_match(texts: Seq<Seq<char>>, s: StreamView) -> Outcome<
    (SpanView, usize),
> {
    let rest = lowercase(s.remaining());
    match first_prefix(lowercase_all(texts), rest, 0) {
        Some(i) => {
            let found = caseless_match(texts[i as int], lowercase(texts[i as int]), rest, s);
            Outcome {
                result: match found.result {
                    Ok(span) => Ok((span, i as usize)),
                    Err(e) => Err(e),
                },
                position: found.position,
            }
        },
        None => Outcome {
            result: Err(error_view(s.current_span(), one_of_message(texts))),
            position: s.position,
        },
    }
}

/// What matching the first of `values` that matches gives, from index `i` on:
/// what matching that value gives, or an error that lists the texts of them
/// all.
pub open spec fn any_value_match<T: Parsable>(values: Seq<T::V>, i: nat, s: StreamView) -> Outcome<
    T::V,
>
    decreases values.len() - i,
{
    if i >= values.len() {
        Outcome {
            result: Err(
                error_view(
                    s.current_span(),
                    one_of_message(Seq::new(values.len(), |j: int| T::span_of(values[j]).text())),
                ),
            ),
            position: s.position,
        }
    } else if T::parse_value_spec(values[i as int], s).result is Ok {
        T::parse_value_spec(values[i as int], s)
    } else {
        any_value_match::<T>(values, i + 1, s)
    }
}

/// The views of `values`.
pub open spec fn value_views<T: View>(values: Seq<T>) -> Seq<T::V> {
    Seq::new(values.len(), |i: int| values[i]@)
}

/// The result of a match together with an index.
pub open spec fn indexed_result(r: Result<(Exact, usize), Error>) -> Result<
    (SpanView, usize),
    crate::diagnostic::DiagnosticView,
> {
    match r {
        Ok((e, i)) => Ok((e@, i)),
        Err(e) => Err(e@),
    }
}

/// Appends `text` between backticks to `message`, after a comma where
/// `message` lists a text already.
fn push_quoted(message: &mut String, text: &str, first: bool)
    ensures
        final(message)@ == old(message)@ + (if first {
            "`"@ + text@ + "`"@
        } else {
            ", "@ + "`"@ + text@ + "`"@
        }),
{
    if !first {
        message.append(", ");
    }
    message.append("`");
    message.append(text);
    message.append("`");
}

/// The message that says that one of `values` was expected.
fn one_of<const N: usize>(values: &[&str; N]) -> (message: String)
    ensures
        message@ == one_of_message(text_views(values@)),
{
    let ghost texts = text_views(values@);
    let mut list = String::new();
    let mut i: usize = 0;
    while i < N
        invariant
            i <= N,
            N == values@.len(),
            texts == text_views(values@),
            list@ == quoted_list(texts, i as nat),
        decreases N - i,
    {
        push_quoted(&mut list, values[i], i == 0);
        i += 1;
    }
    let mut message = String::from_str("expected one of ");
    message.append(list.as_str());
    message
}

impl ParseStream {
    /// Matches the text `value` at the position.
    pub fn parse_str(&mut self, value: &str) -> (r: Result<Exact, Error>)
        ensures
            final(self)@.source == old(self)@.source,
            outcome(r, final(self)@) == exact_match(value@, old(self)@),
    {
        let wanted = Exact::from(value);
        Exact::parse_value(&wanted, self)
    }

    /// Whether what is left of the stream starts with `s`, without regard to
    /// case.
    pub fn peek_istr(&self, s: &str) -> (b: bool)
        ensures
            b == lowercase(s@).is_prefix_of(lowercase(self@.remaining())),
    {
        let lowered = IndexedString::from_str(to_lowercase(s).as_str());
        let rest = IndexedString::from_str(to_lowercase(self.remaining()).as_str());
        let k = common_len(lowered.chars(), rest.chars());
        proof {
            crate::parsing::lemma_common_prefix(lowered@, rest@);
        }
        k == lowered.len()
    }

    /// Matches the text `value` at the position without regard to case: both
    /// the text and what is left of the stream are compared in lower case.
    pub fn parse_istr(&mut self, value: &str) -> (r: Result<Exact, Error>)
        ensures
            final(self)@.source == old(self)@.source,
            outcome(r, final(self)@) == caseless_match(
                value@,
                lowercase(value@),
                lowercase(old(self)@.remaining()),
                old(self)@,
            ),
    {
        let lowered = to_lowercase(value);
        let rest = to_lowercase(self.remaining());
        self.parse_lowered(value, lowered.as_str(), rest.as_str())
    }

    /// Matches the text `value` at the position, given its lower case `lowered`
    /// and the lower case `rest` of what is left of the stream.
    pub fn parse_lowered(&mut self, value: &str, lowered: &str, rest: &str) -> (r: Result<
        Exact,
        Error,
    >)
        ensures
            final(self)@.source == old(self)@.source,
            outcome(r, final(self)@) == caseless_match(value@, lowered@, rest@, old(self)@),
    {
        let wanted = IndexedString::from_str(lowered);
        let found = IndexedString::from_str(rest);
        let k = common_len(wanted.chars(), found.chars());
        proof {
            crate::parsing::lemma_common_prefix(wanted@, found@);
        }
        if k == wanted.len() {
            return match self.consume(k) {
                Ok(span) => Ok(Exact::new(span)),
                Err(e) => Err(e),
            };
        }
        let left = self.remaining_len();
        let moved: usize = if k <= left {
            k
        } else {
            left
        };
        let given = IndexedString::from_str(value);
        let named = if k <= given.len() {
            given.slice(k..).as_str().to_owned()
        } else {
            String::new()
        };
        self.set_position(self.position() + moved);
        let at = self.span_of_next(wanted.len() - moved);
        Err(Error::expected(at, named.as_str()))
    }

    /// Matches the first of `values` that can be matched at the position.
    pub fn parse_any_value_of<T: Parsable, const N: usize>(&mut self, values: [T; N]) -> (r: Result<
        T,
        Error,
    >)
        ensures
            final(self)@.source == old(self)@.source,
            outcome(r, final(self)@) == any_value_match::<T>(value_views(values@), 0, old(self)@),
    {
        let ghost views = value_views(values@);
        let ghost texts = Seq::new(views.len(), |j: int| T::span_of(views[j]).text());
        let mut list = String::new();
        let mut i: usize = 0;
        while i < N
            invariant
                i <= N,
                N == values@.len(),
                views == value_views(values@),
                texts == Seq::new(views.len(), |j: int| T::span_of(views[j]).text()),
                self@ == old(self)@,
                list@ == quoted_list(texts, i as nat),
                any_value_match::<T>(views, 0, self@) == any_value_match::<T>(
                    views,
                    i as nat,
                    self@,
                ),
            decreases N - i,
        {
            let mut fork = self.fork();
            match T::parse_value(&values[i], &mut fork) {
                Ok(v) => {
                    self.set_position(fork.position());
                    return Ok(v);
                },
                Err(_) => {},
            }
            let span = values[i].span();
            proof {
                values[i as int].lemma_span_of();
            }
            push_quoted(&mut list, span.source_text().as_str(), i == 0);
            i += 1;
        }
        let mut message = String::from_str("expected one of ");
        message.append(list.as_str());
        Err(Error::new(self.current_span(), message.as_str()))
    }

    /// Matches the first of `values` that the stream starts with, and gives it
    /// with its index.
    pub fn parse_any_str_of<const N: usize>(&mut self, values: [&str; N]) -> (r: Result<
        (Exact, usize),
        Error,
    >)
        ensures
            final(self)@.source == old(self)@.source,
            indexed_result(r) == any_str_match(text_views(values@), old(self)@).result,
            final(self)@.position == any_str_match(text_views(values@), old(self)@).position,
    {
        let ghost texts = text_views(values@);
        let mut i: usize = 0;
        while i < N
            invariant
                i <= N,
                N == values@.len(),
                texts == text_views(values@),
                self@ == old(self)@,
                first_prefix(texts, self@.remaining(), 0) == first_prefix(
                    texts,
                    self@.remaining(),
                    i as nat,
                ),
            decreases N - i,
        {
            if self.peek_str(values[i]) {
                return match self.parse_str(values[i]) {
                    Ok(found) => Ok((found, i)),
                    Err(e) => Err(e),
                };
            }
            i += 1;
        }
        let message = one_of(&values);
        Err(Error::new(self.current_span(), message.as_str()))
    }

    /// Matches the first of `values` that the stream starts with, without
    /// regard to case, and gives it with its index.
    pub fn parse_any_istr_of<const N: usize>(&mut self, values: [&str; N]) -> (r: Result<
        (Exact, usize),
        Error,
    >)
        ensures
            final(self)@.source == old(self)@.source,
            indexed_result(r) == any_caseless_match(text_views(values@), old(self)@).result,
            final(self)@.position == any_caseless_match(text_views(values@), old(self)@).position,
    {
        let ghost texts = text_views(values@);
        let ghost lowered = lowercase_all(texts);
        let ghost rest = lowercase(self@.remaining());
        let mut i: usize = 0;
        while i < N
            invariant
                i <= N,
                N == values@.len(),
                texts == text_views(values@),
                lowered == lowercase_all(texts),
                rest == lowercase(self@.remaining()),
                self@ == old(self)@,
                first_prefix(lowered, rest, 0) == first_prefix(lowered, rest, i as nat),
            decreases N - i,
        {
            if self.peek_istr(values[i]) {
                return match self.parse_istr(values[i]) {
                    Ok(found) => Ok((found, i)),
                    Err(e) => Err(e),
                };
            }
            i += 1;
        }
        let message = one_of(&values);
        Err(Error::new(self.current_span(), message.as_str()))
    }

    /// Whether one of `values` can be matched at the position.
    pub fn peek_any_value_of<T: Parsable, const N: usize>(&self, values: [T; N]) -> (b: bool)
        ensures
            b == (any_value_match::<T>(value_views(values@), 0, self@).result is Ok),
    {
        let mut fork = self.fork();
        fork.parse_any_value_of(values).is_ok()
    }

    /// Whether the stream starts with one of `values`.
    pub fn peek_any_str_of<const N: usize>(&self, values: [&str; N]) -> (b: bool)
        ensures
            b == (any_str_match(text_views(values@), self@).result is Ok),
    {
        let mut fork = self.fork();
        fork.parse_any_str_of(values).is_ok()
    }

    /// Whether one of `values` can be matched at the position without regard to
    /// case.
    pub fn peek_any_istr_of<const N: usize>(&self, values: [&str; N]) -> (b: bool)
        ensures
            b == (any_caseless_match(text_views(values@), self@).result is Ok),
    {
        let mut fork = self.fork();
        fork.parse_any_istr_of(values).is_ok()
    }
}

} // verus!
