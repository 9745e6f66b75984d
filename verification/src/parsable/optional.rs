//! A value that may be absent.

use crate::parsing::{Error, Outcome, Parsable, ParseStream, StreamView};
use crate::span::{blank_span, Span, SpanView, Spanned};
use vstd::prelude::*;
use vstd::std_specs::convert::FromSpecImpl;

verus! {

/// A value of type `T` where one can be parsed, and nothing where none can.
#[derive(PartialEq, Eq, PartialOrd, Ord, Debug, Hash)]
#[must_use]
pub enum Optional<T: Parsable> {
    /// A value.
    Present(T),
    /// No value.
    Absent,
}

impl<T: Parsable + Clone> Clone for Optional<T> {
    fn clone(&self) -> (r: Optional<T>)
        ensures
            self is Absent <==> r is Absent,
    {
        match self {
            Optional::Present(v) => Optional::Present(v.clone()),
            Optional::Absent => Optional::Absent,
        }
    }
}

impl<T: Parsable + Copy> Copy for Optional<T> {

}

impl<T: Parsable> View for Optional<T> {
    type V = Option<T::V>;

    open spec fn view(&self) -> Option<T::V> {
        match self {
            Optional::Present(v) => Some(v@),
            Optional::Absent => None,
        }
    }
}

impl<T: Parsable> Optional<T> {
    /// Whether no value is held.
    pub fn is_none(&self) -> (b: bool)
        ensures
            b == (self@ is None),
    {
        match self {
            Optional::Present(_) => false,
            Optional::Absent => true,
        }
    }

    /// Whether a value is held.
    pub fn is_some(&self) -> (b: bool)
        ensures
            b == (self@ is Some),
    {
        match self {
            Optional::Present(_) => true,
            Optional::Absent => false,
        }
    }

    /// The text of the value; empty where there is none.
    pub fn to_string(&self) -> (s: String)
        ensures
            s@ == Self::unparse_spec(self@),
    {
        self.unparse()
    }
}

impl<T: Parsable> Spanned for Optional<T> {
    open spec fn span_view(&self) -> SpanView {
        match self {
            Optional::Present(v) => v.span_view(),
            Optional::Absent => blank_span(),
        }
    }

    fn span(&self) -> (s: Span) {
        match self {
            Optional::Present(v) => v.span(),
            Optional::Absent => Span::blank(),
        }
    }
}

impl<T: Parsable> Parsable for Optional<T> {
    /// Parsing never fails: it gives the value that `T` parses to, or no
    /// value, with the stream where it was, where `T` does not parse.
    open spec fn parse_spec(s: StreamView) -> Outcome<Option<T::V>> {
        match T::parse_spec(s).result {
            Ok(v) => Outcome { result: Ok(Some(v)), position: T::parse_spec(s).position },
            Err(_) => Outcome { result: Ok(None), position: s.position },
        }
    }

    /// Matching a value matches it as `T` does; matching no value succeeds and
    /// consumes nothing.
    open spec fn parse_value_spec(value: Option<T::V>, s: StreamView) -> Outcome<Option<T::V>> {
        match value {
            Some(v) => Outcome {
                result: match T::parse_value_spec(v, s).result {
                    Ok(w) => Ok(Some(w)),
                    Err(e) => Err(e),
                },
                position: T::parse_value_spec(v, s).position,
            },
            None => Outcome { result: Ok(None), position: s.position },
        }
    }

    open spec fn unparse_spec(value: Option<T::V>) -> Seq<char> {
        match value {
            Some(v) => T::unparse_spec(v),
            None => Seq::empty(),
        }
    }

    open spec fn span_of(value: Option<T::V>) -> SpanView {
        match value {
            Some(v) => T::span_of(v),
            None => blank_span(),
        }
    }

    fn parse(stream: &mut ParseStream) -> (r: Result<Optional<T>, Error>) {
        let mut fork = stream.fork();
        match T::parse(&mut fork) {
            Ok(v) => {
                stream.set_position(fork.position());
                Ok(Optional::Present(v))
            },
            Err(_) => Ok(Optional::Absent),
        }
    }

    fn parse_value(value: &Optional<T>, stream: &mut ParseStream) -> (r: Result<
        Optional<T>,
        Error,
    >) {
        match value {
            Optional::Present(v) => match T::parse_value(v, stream) {
                Ok(w) => Ok(Optional::Present(w)),
                Err(e) => Err(e),
            },
            Optional::Absent => Ok(Optional::Absent),
        }
    }

    fn unparse(&self) -> (s: String) {
        match self {
            Optional::Present(v) => v.unparse(),
            Optional::Absent => String::new(),
        }
    }

    proof fn lemma_span_of(&self) {
        match self {
            Optional::Present(v) => {
                v.lemma_span_of();
            },
            Optional::Absent => {},
        }
    }

    proof fn lemma_unparse_consumed(s: StreamView) {
        match T::parse_spec(s).result {
            Ok(v) => {
                T::lemma_unparse_consumed(s);
            },
            Err(_) => {
            },
        }
    }
}

impl<T: Parsable> std::str::FromStr for Optional<T> {
    type Err = Error;

    /// Parses the text as a value of this type, from its start.
    fn from_str(s: &str) -> (r: Result<Optional<T>, Error>)
        ensures
            crate::parsing::result_view(r) == <Optional<T> as Parsable>::parse_spec(
                crate::parsing::stream_over(s@),
            ).result,
    {
        let mut stream = ParseStream::from(s);
        Optional::parse(&mut stream)
    }
}

impl<T: Parsable> From<Option<T>> for Optional<T> {
    /// The same as `value`.
    fn from(value: Option<T>) -> (r: Optional<T>) {
        match value {
            Some(v) => Optional::Present(v),
            None => Optional::Absent,
        }
    }
}

impl<T: Parsable> FromSpecImpl<Option<T>> for Optional<T> {
    open spec fn obeys_from_spec() -> bool {
        true
    }

    open spec fn from_spec(value: Option<T>) -> Optional<T> {
        match value {
            Some(v) => Optional::Present(v),
            None => Optional::Absent,
        }
    }
}

impl<T: Parsable> From<Optional<T>> for Option<T> {
    /// The same as `value`.
    fn from(value: Optional<T>) -> (r: Option<T>) {
        match value {
            Optional::Present(v) => Some(v),
            Optional::Absent => None,
        }
    }
}

impl<T: Parsable> FromSpecImpl<Optional<T>> for Option<T> {
    open spec fn obeys_from_spec() -> bool {
        true
    }

    open spec fn from_spec(value: Optional<T>) -> Option<T> {
        match value {
            Optional::Present(v) => Some(v),
            Optional::Absent => None,
        }
    }
}

} // verus!
