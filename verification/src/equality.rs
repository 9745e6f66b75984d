//! Equality of indexed strings with each other and with plain strings: two
//! texts are equal when they hold the same characters, wherever they are kept.

use crate::indexed_string::{IndexedSlice, IndexedStr, IndexedString};
use vstd::prelude::*;
use vstd::std_specs::cmp::PartialEqSpecImpl;
use vstd::string::StringSliceAdditionalSpecFns;
use vstd::utf8::encode_utf8_decode_utf8;

verus! {

/// Whether two strings hold the same text.
pub fn str_eq(a: &str, b: &str) -> (r: bool)
    ensures
        r == (a@ == b@),
{
    let x = a.as_bytes();
    let y = b.as_bytes();
    proof {
        encode_utf8_decode_utf8(a@);
        encode_utf8_decode_utf8(b@);
    }
    if x.len() != y.len() {
        return false;
    }
    let mut i: usize = 0;
    while i < x.len()
        invariant
            i <= x.len(),
            x.len() == y.len(),
            x@ == a.spec_bytes(),
            y@ == b.spec_bytes(),
            forall|k: int| 0 <= k < i ==> x@[k] == y@[k],
        decreases x.len() - i,
    {
        if x[i] != y[i] {
            return false;
        }
        i += 1;
    }
    proof {
        assert(x@ =~= y@);
    }
    true
}

impl PartialEq for IndexedString {
    fn eq(&self, other: &IndexedString) -> (r: bool) {
        str_eq(self.as_str(), other.as_str())
    }
}

impl PartialEqSpecImpl for IndexedString {
    open spec fn obeys_eq_spec() -> bool {
        true
    }

    open spec fn eq_spec(&self, other: &IndexedString) -> bool {
        self@ == other@
    }
}

impl Eq for IndexedString {

}

impl<'b> PartialEq<&'b str> for IndexedString {
    fn eq(&self, other: &&'b str) -> (r: bool) {
        str_eq(self.as_str(), *other)
    }
}

impl<'b> PartialEqSpecImpl<&'b str> for IndexedString {
    open spec fn obeys_eq_spec() -> bool {
        true
    }

    open spec fn eq_spec(&self, other: &&'b str) -> bool {
        self@ == (*other)@
    }
}

impl PartialEq<String> for IndexedString {
    fn eq(&self, other: &String) -> (r: bool) {
        str_eq(self.as_str(), other.as_str())
    }
}

impl PartialEqSpecImpl<String> for IndexedString {
    open spec fn obeys_eq_spec() -> bool {
        true
    }

    open spec fn eq_spec(&self, other: &String) -> bool {
        self@ == other@
    }
}

impl<'b> PartialEq<IndexedSlice<'b>> for IndexedString {
    fn eq(&self, other: &IndexedSlice<'b>) -> (r: bool) {
        str_eq(self.as_str(), other.as_str())
    }
}

impl<'b> PartialEqSpecImpl<IndexedSlice<'b>> for IndexedString {
    open spec fn obeys_eq_spec() -> bool {
        true
    }

    open spec fn eq_spec(&self, other: &IndexedSlice<'b>) -> bool {
        self@ == other@
    }
}

impl<'a, 'b> PartialEq<IndexedSlice<'b>> for IndexedSlice<'a> {
    fn eq(&self, other: &IndexedSlice<'b>) -> (r: bool) {
        str_eq(self.as_str(), other.as_str())
    }
}

impl<'a, 'b> PartialEqSpecImpl<IndexedSlice<'b>> for IndexedSlice<'a> {
    open spec fn obeys_eq_spec() -> bool {
        true
    }

    open spec fn eq_spec(&self, other: &IndexedSlice<'b>) -> bool {
        self@ == other@
    }
}

impl<'a> Eq for IndexedSlice<'a> {

}

impl<'a> PartialEq<IndexedString> for IndexedSlice<'a> {
    fn eq(&self, other: &IndexedString) -> (r: bool) {
        str_eq(self.as_str(), other.as_str())
    }
}

impl<'a> PartialEqSpecImpl<IndexedString> for IndexedSlice<'a> {
    open spec fn obeys_eq_spec() -> bool {
        true
    }

    open spec fn eq_spec(&self, other: &IndexedString) -> bool {
        self@ == other@
    }
}

impl<'a, 'b> PartialEq<&'b str> for IndexedSlice<'a> {
    fn eq(&self, other: &&'b str) -> (r: bool) {
        str_eq(self.as_str(), *other)
    }
}

impl<'a, 'b> PartialEqSpecImpl<&'b str> for IndexedSlice<'a> {
    open spec fn obeys_eq_spec() -> bool {
        true
    }

    open spec fn eq_spec(&self, other: &&'b str) -> bool {
        self@ == (*other)@
    }
}

impl<'a> PartialEq<String> for IndexedSlice<'a> {
    fn eq(&self, other: &String) -> (r: bool) {
        str_eq(self.as_str(), other.as_str())
    }
}

impl<'a> PartialEqSpecImpl<String> for IndexedSlice<'a> {
    open spec fn obeys_eq_spec() -> bool {
        true
    }

    open spec fn eq_spec(&self, other: &String) -> bool {
        self@ == other@
    }
}

impl<'a, 'b> PartialEq<IndexedSlice<'a>> for &'b str {
    fn eq(&self, other: &IndexedSlice<'a>) -> (r: bool) {
        str_eq(*self, other.as_str())
    }
}

impl<'a, 'b> PartialEqSpecImpl<IndexedSlice<'a>> for &'b str {
    open spec fn obeys_eq_spec() -> bool {
        true
    }

    open spec fn eq_spec(&self, other: &IndexedSlice<'a>) -> bool {
        (*self)@ == other@
    }
}

impl<'b> PartialEq<IndexedString> for &'b str {
    fn eq(&self, other: &IndexedString) -> (r: bool) {
        str_eq(*self, other.as_str())
    }
}

impl<'b> PartialEqSpecImpl<IndexedString> for &'b str {
    open spec fn obeys_eq_spec() -> bool {
        true
    }

    open spec fn eq_spec(&self, other: &IndexedString) -> bool {
        (*self)@ == other@
    }
}

} // verus!
