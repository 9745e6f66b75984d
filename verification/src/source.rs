//! Source texts: an immutable text together with the name of the file it
//! came from, if any. Spans and parse streams share one source by reference
//! counting and never copy its text.

use crate::equality::str_eq;
use crate::indexed_string::{IndexedSlice, IndexedStr, IndexedString};
use std::rc::Rc;
use vstd::prelude::*;
use vstd::std_specs::cmp::PartialEqSpecImpl;
use vstd::std_specs::convert::FromSpecImpl;

verus! {

/// What a [`Source`] holds: its characters and the path of its file, if any.
pub struct SourceView {
    pub text: Seq<char>,
    pub path: Option<Seq<char>>,
}

/// A text that spans point into.
#[derive(Debug, Hash)]
pub struct Source {
    text: IndexedString,
    path: Option<String>,
}

impl View for Source {
    type V = SourceView;

    closed spec fn view(&self) -> SourceView {
        SourceView {
            text: self.text@,
            path: match self.path {
                Some(p) => Some(p@),
                None => None,
            },
        }
    }
}

impl Source {
    /// A source that holds `string` and names no file.
    pub fn from_str(string: &str) -> (r: Source)
        ensures
            r@ == (SourceView { text: string@, path: None }),
    {
        Source { text: IndexedString::from_str(string), path: None }
    }

    /// A source that holds `text` and names no file.
    pub fn from_indexed_string(text: IndexedString) -> (r: Source)
        ensures
            r@ == (SourceView { text: text@, path: None }),
    {
        Source { text, path: None }
    }

    /// The whole text.
    pub fn source_text(&self) -> (s: IndexedSlice<'_>)
        ensures
            s@ == self@.text,
    {
        self.text.as_slice()
    }

    /// The text, indexed by character.
    pub fn text(&self) -> (t: &IndexedString)
        ensures
            t@ == self@.text,
    {
        &self.text
    }

    /// The number of characters of the text.
    pub fn len(&self) -> (n: usize)
        ensures
            n == self@.text.len(),
    {
        self.text.len()
    }

    /// Whether the text has no characters.
    pub fn is_empty(&self) -> (b: bool)
        ensures
            b == (self@.text.len() == 0),
    {
        self.text.is_empty()
    }

    /// Sets or clears the path of the file that the text came from.
    pub fn set_path(&mut self, path: Option<String>)
        ensures
            final(self)@ == (SourceView {
                text: old(self)@.text,
                path: match path {
                    Some(p) => Some(p@),
                    None => None,
                },
            }),
    {
        self.path = path;
    }

    /// The path of the file that the text came from, if it came from one.
    pub fn source_path(&self) -> (p: Option<&str>)
        ensures
            match p {
                Some(s) => self@.path == Some(s@),
                None => self@.path is None,
            },
    {
        match &self.path {
            Some(p) => Some(p.as_str()),
            None => None,
        }
    }

    /// Whether two sources hold the same text and name the same file.
    pub fn same(&self, other: &Source) -> (b: bool)
        ensures
            b == (self@ == other@),
    {
        if !str_eq(self.text.as_str(), other.text.as_str()) {
            return false;
        }
        match (&self.path, &other.path) {
            (Some(a), Some(b)) => str_eq(a.as_str(), b.as_str()),
            (None, None) => true,
            _ => false,
        }
    }
}

impl Clone for Source {
    fn clone(&self) -> (r: Source)
        ensures
            r@ == self@,
    {
        Source {
            text: self.text.clone(),
            path: match &self.path {
                Some(p) => Some(p.clone()),
                None => None,
            },
        }
    }
}

impl PartialEq for Source {
    fn eq(&self, other: &Source) -> (r: bool) {
        self.same(other)
    }
}

impl PartialEqSpecImpl for Source {
    open spec fn obeys_eq_spec() -> bool {
        true
    }

    open spec fn eq_spec(&self, other: &Source) -> bool {
        self@ == other@
    }
}

impl Eq for Source {

}

impl std::ops::Deref for Source {
    type Target = IndexedString;

    fn deref(&self) -> (t: &IndexedString)
        ensures
            t@ == self@.text,
    {
        &self.text
    }
}

impl<'a> From<&'a str> for Source {
    fn from(value: &'a str) -> (r: Source)
        ensures
            r@ == (SourceView { text: value@, path: None }),
    {
        Source::from_str(value)
    }
}

impl<'a> FromSpecImpl<&'a str> for Source {
    /// The result is stated by view, in the contract of `from`.
    open spec fn obeys_from_spec() -> bool {
        false
    }

    open spec fn from_spec(value: &'a str) -> Source {
        arbitrary()
    }
}

impl From<String> for Source {
    fn from(value: String) -> (r: Source)
        ensures
            r@ == (SourceView { text: value@, path: None }),
    {
        Source::from_str(value.as_str())
    }
}

impl FromSpecImpl<String> for Source {
    /// The result is stated by view, in the contract of `from`.
    open spec fn obeys_from_spec() -> bool {
        false
    }

    open spec fn from_spec(value: String) -> Source {
        arbitrary()
    }
}

/// Calls `Rc::clone`: another handle to the same value.
#[verifier::external_body]
pub(crate) fn share<T>(rc: &Rc<T>) -> (r: Rc<T>)
    ensures
        r == *rc,
{
    rc.clone()
}

} // verus!
