//! Character-indexed strings.
//!
//! [`IndexedString`] owns a text and [`IndexedSlice`] borrows a range of one.
//! Both count and index in characters, never in bytes, and keep a table of
//! byte offsets so that the UTF-8 text of any character range is cut out
//! without scanning. No operation panics: ranges are clamped.

use std::ops::{Range, RangeFrom, RangeFull, RangeInclusive, RangeTo, RangeToInclusive};
use std::str::Chars;
use vstd::prelude::*;
use vstd::slice::slice_subrange;
use vstd::std_specs::convert::FromSpecImpl;
use vstd::std_specs::iter::IteratorSpec;
use vstd::string::StringSliceAdditionalSpecFns;
use vstd::utf8::*;

verus! {

/// The number of bytes that the UTF-8 encoding of `s` occupies.
pub open spec fn utf8_len(s: Seq<char>) -> nat {
    encode_utf8(s).len()
}

/// The UTF-8 encoding of a concatenation is the concatenation of the encodings.
pub proof fn lemma_encode_utf8_concat(a: Seq<char>, b: Seq<char>)
    ensures
        encode_utf8(a + b) == encode_utf8(a) + encode_utf8(b),
    decreases a.len(),
{
    if a.len() > 0 {
        assert((a + b).drop_first() =~= a.drop_first() + b);
        lemma_encode_utf8_concat(a.drop_first(), b);
    }
}

/// Every character takes between one and four bytes.
pub proof fn lemma_char_width(c: char)
    ensures
        1 <= encode_scalar(c as u32).len() <= 4,
        utf8_len(seq![c]) == encode_scalar(c as u32).len(),
{
    assert(encode_utf8(seq![c]) =~= encode_scalar(c as u32) + encode_utf8(seq![c].drop_first()));
}

/// Splitting a text at a character index splits its byte length.
pub proof fn lemma_utf8_len_split(s: Seq<char>, i: int)
    requires
        0 <= i <= s.len(),
    ensures
        utf8_len(s) == utf8_len(s.take(i)) + utf8_len(s.skip(i)),
        encode_utf8(s) == encode_utf8(s.take(i)) + encode_utf8(s.skip(i)),
{
    assert(s =~= s.take(i) + s.skip(i));
    lemma_encode_utf8_concat(s.take(i), s.skip(i));
}

/// Taking one more character adds that character's width.
pub proof fn lemma_utf8_len_step(s: Seq<char>, i: int)
    requires
        0 <= i < s.len(),
    ensures
        utf8_len(s.take(i + 1)) == utf8_len(s.take(i)) + encode_scalar(s[i] as u32).len(),
        utf8_len(s.take(i + 1)) > utf8_len(s.take(i)),
        utf8_len(s.take(i + 1)) <= utf8_len(s),
{
    assert(s.take(i + 1) =~= s.take(i) + seq![s[i]]);
    lemma_encode_utf8_concat(s.take(i), seq![s[i]]);
    lemma_char_width(s[i]);
    lemma_utf8_len_split(s, i + 1);
}

/// The byte offset of every character index is a character boundary of the encoding.
pub proof fn lemma_offset_is_boundary(s: Seq<char>, i: int)
    requires
        0 <= i <= s.len(),
    ensures
        is_char_boundary(encode_utf8(s), utf8_len(s.take(i)) as int),
    decreases i,
{
    encode_utf8_valid_utf8(s);
    if i > 0 {
        let bytes = encode_utf8(s);
        let rest = s.drop_first();
        encode_utf8_first_scalar(s);
        assert(pop_first_scalar(bytes) =~= encode_utf8(rest));
        assert(s.take(i) =~= seq![s[0]] + rest.take(i - 1));
        lemma_encode_utf8_concat(seq![s[0]], rest.take(i - 1));
        lemma_char_width(s[0]);
        lemma_offset_is_boundary(rest, i - 1);
    }
}

/// The bytes between two character offsets encode the characters between them.
pub proof fn lemma_encode_subrange(s: Seq<char>, i: int, j: int)
    requires
        0 <= i <= j <= s.len(),
    ensures
        utf8_len(s.take(i)) <= utf8_len(s.take(j)) <= utf8_len(s),
        encode_utf8(s.subrange(i, j)) == encode_utf8(s).subrange(
            utf8_len(s.take(i)) as int,
            utf8_len(s.take(j)) as int,
        ),
{
    lemma_utf8_len_split(s, j);
    lemma_utf8_len_split(s.take(j), i);
    assert(s.take(j).take(i) =~= s.take(i));
    assert(s.take(j).skip(i) =~= s.subrange(i, j));
}

/// The number of bytes that `c` takes in UTF-8.
pub fn char_width(c: char) -> (w: usize)
    ensures
        w == encode_scalar(c as u32).len(),
        1 <= w <= 4,
{
    let u: u32 = c as u32;
    if u < 0x80 {
        1
    } else if u < 0x800 {
        2
    } else if u < 0x10000 {
        3
    } else {
        4
    }
}

/// The range `[lo, hi)` as it is applied to a text of `n` characters: both ends
/// are lowered to `n`, and an end before the start is moved up to the start.
pub open spec fn clamp_range(lo: int, hi: int, n: int) -> (int, int) {
    let start = if lo > n { n } else { lo };
    let end = if hi > n { n } else { hi };
    (start, if end < start { start } else { end })
}

/// A clamped range lies within the text and is never inverted: a request whose
/// start lies after its end gives an empty range, and a request that ends past
/// the text ends at the end of the text.
pub proof fn lemma_clamp_range(lo: int, hi: int, n: int)
    requires
        0 <= lo,
        0 <= n,
    ensures
        0 <= clamp_range(lo, hi, n).0 <= clamp_range(lo, hi, n).1 <= n,
        lo > hi ==> clamp_range(lo, hi, n).0 == clamp_range(lo, hi, n).1,
        hi > n ==> clamp_range(lo, hi, n).1 == n,
        lo <= hi <= n ==> clamp_range(lo, hi, n) == (lo, hi),
{
}

/// Where the line that starts at `from` ends: the index of the first line feed
/// at or after `from`, or the length of the text where none follows.
pub open spec fn line_end(s: Seq<char>, from: int) -> int
    decreases s.len() - from,
{
    if from < 0 || from >= s.len() {
        s.len() as int
    } else if s[from] == '\n' {
        from
    } else {
        line_end(s, from + 1)
    }
}

/// The character ranges of the lines of `s` from index `from` on. A line ends
/// before a line feed or at the end of the text; a text that ends in a line
/// feed has an empty last line, and the empty text has one empty line.
pub open spec fn line_ranges(s: Seq<char>, from: int) -> Seq<(int, int)>
    decreases s.len() - from,
    when 0 <= from
    via line_ranges_decreases
{
    if from > s.len() {
        Seq::empty()
    } else {
        let end = line_end(s, from);
        if end < s.len() {
            seq![(from, end)] + line_ranges(s, end + 1)
        } else {
            seq![(from, end)]
        }
    }
}

#[via_fn]
proof fn line_ranges_decreases(s: Seq<char>, from: int) {
    lemma_line_end(s, from);
}

/// A line ends at or after its start, within the text, at a line feed or at the
/// end of the text, and holds no line feed.
pub proof fn lemma_line_end(s: Seq<char>, from: int)
    requires
        0 <= from,
    ensures
        from <= s.len() ==> from <= line_end(s, from) <= s.len(),
        line_end(s, from) < s.len() ==> s[line_end(s, from)] == '\n',
        forall|k: int| from <= k < line_end(s, from) ==> s[k] != '\n',
    decreases s.len() - from,
{
    if from < s.len() && s[from] != '\n' {
        lemma_line_end(s, from + 1);
    }
}

/// The lines of `s`, without their line feeds.
pub open spec fn lines_of(s: Seq<char>) -> Seq<Seq<char>> {
    line_ranges(s, 0).map_values(|r: (int, int)| s.subrange(r.0, r.1))
}

/// `std::ops::RangeFrom`, the type of `a..`: its one field, `start`, is public
/// in std and is all that is read of it.
#[verifier::external_type_specification]
#[verifier::reject_recursive_types(Idx)]
pub struct ExRangeFrom<Idx>(RangeFrom<Idx>);

/// `std::ops::RangeTo`, the type of `..b`: its one field, `end`, is public in
/// std and is all that is read of it.
#[verifier::external_type_specification]
#[verifier::reject_recursive_types(Idx)]
pub struct ExRangeTo<Idx>(RangeTo<Idx>);

/// `std::ops::RangeToInclusive`, the type of `..=b`: its one field, `end`, is
/// public in std and is all that is read of it.
#[verifier::external_type_specification]
#[verifier::reject_recursive_types(Idx)]
pub struct ExRangeToInclusive<Idx>(RangeToInclusive<Idx>);

/// `std::ops::RangeFull`, the type of `..`: it has no fields.
#[verifier::external_type_specification]
pub struct ExRangeFull(RangeFull);

/// `RangeInclusive::start` gives the lower bound that the range was made with.
pub assume_specification<Idx>[ RangeInclusive::<Idx>::start ](r: &RangeInclusive<Idx>) -> (s: &Idx)
    ensures
        *s == r@.start,
;

/// `RangeInclusive::end` gives the upper bound that the range was made with,
/// which the range includes.
pub assume_specification<Idx>[ RangeInclusive::<Idx>::end ](r: &RangeInclusive<Idx>) -> (e: &Idx)
    ensures
        *e == r@.end,
;

/// A range of character indices that a text can be sliced by.
pub trait CharRange {
    /// The first index that the range asks for.
    spec fn lower(&self) -> int;

    /// One past the last index that the range asks for, in a text of `len`
    /// characters.
    spec fn upper(&self, len: int) -> int;

    /// The range as it applies to a text of `len` characters.
    fn clamp_to(&self, len: usize) -> (r: (usize, usize))
        ensures
            (r.0 as int, r.1 as int) == clamp_range(
                self.lower(),
                self.upper(len as int),
                len as int,
            ),
            r.0 <= r.1 <= len,
    ;
}

/// Clamps the half-open range from `lo` to `hi` to a text of `len` characters.
pub fn clamp_bounds(lo: usize, hi: usize, len: usize) -> (r: (usize, usize))
    ensures
        (r.0 as int, r.1 as int) == clamp_range(lo as int, hi as int, len as int),
        r.0 <= r.1 <= len,
{
    let start: usize = if lo > len { len } else { lo };
    let end: usize = if hi > len { len } else { hi };
    (start, if end < start { start } else { end })
}

impl CharRange for Range<usize> {
    open spec fn lower(&self) -> int {
        self.start as int
    }

    open spec fn upper(&self, len: int) -> int {
        self.end as int
    }

    fn clamp_to(&self, len: usize) -> (r: (usize, usize)) {
        clamp_bounds(self.start, self.end, len)
    }
}

impl CharRange for RangeFrom<usize> {
    open spec fn lower(&self) -> int {
        self.start as int
    }

    open spec fn upper(&self, len: int) -> int {
        len
    }

    fn clamp_to(&self, len: usize) -> (r: (usize, usize)) {
        clamp_bounds(self.start, len, len)
    }
}

/// The range `a..=b` asks for the indices from `a` up to `b`, both of them, as
/// it was made: whether it has been walked through since does not count.
impl CharRange for RangeInclusive<usize> {
    open spec fn lower(&self) -> int {
        self@.start as int
    }

    open spec fn upper(&self, len: int) -> int {
        self@.end + 1
    }

    fn clamp_to(&self, len: usize) -> (r: (usize, usize)) {
        let last: usize = *self.end();
        if last >= len {
            clamp_bounds(*self.start(), len, len)
        } else {
            clamp_bounds(*self.start(), last + 1, len)
        }
    }
}

impl CharRange for RangeTo<usize> {
    open spec fn lower(&self) -> int {
        0
    }

    open spec fn upper(&self, len: int) -> int {
        self.end as int
    }

    fn clamp_to(&self, len: usize) -> (r: (usize, usize)) {
        clamp_bounds(0, self.end, len)
    }
}

impl CharRange for RangeToInclusive<usize> {
    open spec fn lower(&self) -> int {
        0
    }

    open spec fn upper(&self, len: int) -> int {
        self.end + 1
    }

    fn clamp_to(&self, len: usize) -> (r: (usize, usize)) {
        if self.end >= len {
            (0, len)
        } else {
            (0, self.end + 1)
        }
    }
}

impl CharRange for RangeFull {
    open spec fn lower(&self) -> int {
        0
    }

    open spec fn upper(&self, len: int) -> int {
        len
    }

    fn clamp_to(&self, len: usize) -> (r: (usize, usize)) {
        (0, len)
    }
}

/// What an owned and a borrowed indexed string have in common. Lengths and
/// indices count characters.
pub trait IndexedStr: View<V = Seq<char>> {
    /// The text as a `&str`, byte for byte.
    fn as_str(&self) -> (s: &str)
        ensures
            s@ == self@,
    ;

    /// A slice of the whole text.
    fn as_slice(&self) -> (s: IndexedSlice<'_>)
        ensures
            s@ == self@,
    ;

    /// The number of characters.
    fn len(&self) -> (n: usize)
        ensures
            n == self@.len(),
    ;

    /// The number of bytes of the UTF-8 text.
    fn byte_len(&self) -> (n: usize)
        ensures
            n == utf8_len(self@),
    ;

    /// Whether the text has no characters.
    fn is_empty(&self) -> (b: bool)
        ensures
            b == (self@.len() == 0),
    ;

    /// The character at `index`, or `None` at and past the end.
    fn char_at(&self, index: usize) -> (c: Option<char>)
        ensures
            c == (if index < self@.len() {
                Some(self@[index as int])
            } else {
                None
            }),
    ;

    /// The characters in `range`, clamped to the text.
    fn slice<R: CharRange>(&self, range: R) -> (s: IndexedSlice<'_>)
        ensures
            s@ == ({
                let n = self@.len() as int;
                let r = clamp_range(range.lower(), range.upper(n), n);
                self@.subrange(r.0, r.1)
            }),
    ;

    /// All the characters, in order.
    fn chars(&self) -> (c: &[char])
        ensures
            c@ == self@,
    ;

    /// An owned copy of the text.
    fn to_indexed_string(&self) -> (s: IndexedString)
        ensures
            s@ == self@,
    ;

    /// The lines of the text, without their line feeds.
    fn lines(&self) -> (v: Vec<IndexedSlice<'_>>)
        ensures
            v@.len() == lines_of(self@).len(),
            forall|i: int| 0 <= i < v@.len() ==> (#[trigger] v@[i])@ == lines_of(self@)[i],
    ;
}

/// An owned text that is indexed and sliced by character in constant time.
#[derive(Debug, Hash)]
pub struct IndexedString {
    chars: Vec<char>,
    offsets: Vec<usize>,
    string: String,
}

impl View for IndexedString {
    type V = Seq<char>;

    closed spec fn view(&self) -> Seq<char> {
        self.chars@
    }
}

impl IndexedString {
    /// The three representations agree: the string holds the characters, and
    /// each offset is the byte position of its character.
    #[verifier::type_invariant]
    spec fn wf(&self) -> bool {
        &&& self.string@ == self.chars@
        &&& self.offsets@.len() == self.chars@.len()
        &&& forall|i: int|
            0 <= i < self.offsets@.len() ==> #[trigger] self.offsets@[i] == utf8_len(
                self.chars@.take(i),
            )
    }

    /// Builds the indexed form of `s`.
    pub fn from_str(s: &str) -> (r: IndexedString)
        ensures
            r@ == s@,
    {
        let total: usize = s.as_bytes().len();
        let mut chars: Vec<char> = Vec::new();
        let mut offsets: Vec<usize> = Vec::new();
        let mut offset: usize = 0;
        for c in it: s.chars()
            invariant
                it.seq() == s@,
                total == utf8_len(s@),
                chars@ == s@.take(it.index() as int),
                offsets@.len() == it.index(),
                offset == utf8_len(s@.take(it.index() as int)),
                forall|k: int|
                    0 <= k < offsets@.len() ==> #[trigger] offsets@[k] == utf8_len(s@.take(k)),
        {
            proof {
                lemma_utf8_len_step(s@, it.index() as int);
            }
            offsets.push(offset);
            chars.push(c);
            offset = offset + char_width(c);
        }
        proof {
            assert(s@.take(s@.len() as int) =~= s@);
        }
        IndexedString { chars, offsets, string: s.to_owned() }
    }

    /// Builds an indexed string from the characters that `chars` yields.
    pub fn from_chars(chars: Chars<'_>) -> (r: IndexedString)
        ensures
            r@ == chars.remaining(),
    {
        IndexedString::from_str(remaining_text(&chars))
    }

    /// Builds an indexed string that holds `chars`.
    pub fn from_vec(chars: Vec<char>) -> (r: IndexedString)
        ensures
            r@ == chars@,
    {
        let mut offsets: Vec<usize> = Vec::new();
        let mut string = String::new();
        let mut i: usize = 0;
        while i < chars.len()
            invariant
                i <= chars.len(),
                string@ == chars@.take(i as int),
                offsets@.len() == i,
                forall|k: int|
                    0 <= k < offsets@.len() ==> #[trigger] offsets@[k] == utf8_len(
                        chars@.take(k),
                    ),
            decreases chars.len() - i,
        {
            let offset: usize = string.as_str().as_bytes().len();
            offsets.push(offset);
            string.push(chars[i]);
            i += 1;
        }
        proof {
            assert(chars@.take(chars@.len() as int) =~= chars@);
        }
        IndexedString { chars, offsets, string }
    }

    /// The byte offset of the character at `index`, or the byte length of the
    /// text at and past the end.
    pub fn byte_offset(&self, index: usize) -> (b: usize)
        ensures
            b == (if index < self@.len() {
                utf8_len(self@.take(index as int))
            } else {
                utf8_len(self@)
            }),
            b <= utf8_len(self@),
    {
        proof {
            use_type_invariant(self);
        }
        if index < self.offsets.len() {
            proof {
                lemma_utf8_len_split(self.chars@, index as int);
            }
            self.offsets[index]
        } else {
            self.string.as_str().as_bytes().len()
        }
    }
}

impl Clone for IndexedString {
    fn clone(&self) -> (r: IndexedString)
        ensures
            r@ == self@,
    {
        self.to_indexed_string()
    }
}

impl<'a> Clone for IndexedSlice<'a> {
    fn clone(&self) -> (r: IndexedSlice<'a>)
        ensures
            r@ == self@,
    {
        proof {
            use_type_invariant(self);
        }
        IndexedSlice { source: self.source, start: self.start, end: self.end }
    }
}

/// Calls `Chars::as_str`, which gives the text that the iterator has not
/// yielded yet: its characters are those that the iterator will still return.
#[verifier::external_body]
fn remaining_text<'a>(chars: &Chars<'a>) -> (s: &'a str)
    ensures
        s@ == chars.remaining(),
{
    chars.as_str()
}

/// A borrowed range of the characters of an [`IndexedString`].
#[derive(Debug)]
pub struct IndexedSlice<'a> {
    source: &'a IndexedString,
    start: usize,
    end: usize,
}

impl<'a> View for IndexedSlice<'a> {
    type V = Seq<char>;

    closed spec fn view(&self) -> Seq<char> {
        self.source@.subrange(self.start as int, self.end as int)
    }
}

impl<'a> IndexedSlice<'a> {
    /// The range lies within the text it borrows from.
    #[verifier::type_invariant]
    spec fn wf(&self) -> bool {
        self.start <= self.end <= self.source@.len()
    }
}

/// The lines of the characters of `source` from `start` up to `end`.
fn lines_between<'a>(source: &'a IndexedString, start: usize, end: usize) -> (v: Vec<
    IndexedSlice<'a>,
>)
    requires
        start <= end <= source@.len(),
    ensures
        v@.len() == lines_of(source@.subrange(start as int, end as int)).len(),
        forall|i: int|
            0 <= i < v@.len() ==> (#[trigger] v@[i])@ == lines_of(
                source@.subrange(start as int, end as int),
            )[i],
{
    let ghost t = source@.subrange(start as int, end as int);
    let ghost mut done: Seq<(int, int)> = Seq::empty();
    let mut v: Vec<IndexedSlice<'a>> = Vec::new();
    let mut from: usize = start;
    let mut i: usize = start;
    while i < end
        invariant
            start <= from <= i <= end <= source@.len(),
            t == source@.subrange(start as int, end as int),
            line_ranges(t, 0) == done + line_ranges(t, from - start),
            line_end(t, from - start) == line_end(t, i - start),
            v@.len() == done.len(),
            forall|k: int|
                0 <= k < v@.len() ==> (#[trigger] v@[k])@ == t.subrange(done[k].0, done[k].1),
        decreases end - i,
    {
        if source.chars[i] == '\n' {
            proof {
                done = done.push((from - start, i - start));
            }
            v.push(IndexedSlice { source, start: from, end: i });
            from = i + 1;
        }
        i += 1;
    }
    proof {
        done = done.push((from - start, end - start));
    }
    v.push(IndexedSlice { source, start: from, end });
    v
}

impl IndexedStr for IndexedString {
    fn as_str(&self) -> (s: &str) {
        proof {
            use_type_invariant(self);
        }
        self.string.as_str()
    }

    fn as_slice(&self) -> (s: IndexedSlice<'_>) {
        IndexedSlice { source: self, start: 0, end: self.chars.len() }
    }

    fn len(&self) -> (n: usize) {
        self.chars.len()
    }

    fn byte_len(&self) -> (n: usize) {
        proof {
            use_type_invariant(self);
        }
        self.string.as_str().as_bytes().len()
    }

    fn is_empty(&self) -> (b: bool) {
        self.chars.len() == 0
    }

    fn char_at(&self, index: usize) -> (c: Option<char>) {
        if index < self.chars.len() {
            Some(self.chars[index])
        } else {
            None
        }
    }

    fn slice<R: CharRange>(&self, range: R) -> (s: IndexedSlice<'_>) {
        let (start, end) = range.clamp_to(self.chars.len());
        IndexedSlice { source: self, start, end }
    }

    fn chars(&self) -> (c: &[char]) {
        self.chars.as_slice()
    }

    fn to_indexed_string(&self) -> (s: IndexedString) {
        proof {
            use_type_invariant(self);
        }
        IndexedString {
            chars: self.chars.clone(),
            offsets: self.offsets.clone(),
            string: self.string.clone(),
        }
    }

    fn lines(&self) -> (v: Vec<IndexedSlice<'_>>) {
        proof {
            assert(self@.subrange(0, self@.len() as int) =~= self@);
        }
        lines_between(self, 0, self.chars.len())
    }
}

impl<'a> IndexedSlice<'a> {
    /// The text of the slice as a `&str` that lives as long as the text that
    /// the slice borrows from.
    pub fn into_str(self) -> (s: &'a str)
        ensures
            s@ == self@,
    {
        proof {
            use_type_invariant(&self);
            use_type_invariant(self.source);
        }
        let whole: &str = self.source.string.as_str();
        let from: usize = self.source.byte_offset(self.start);
        let to: usize = self.source.byte_offset(self.end);
        let ghost src = self.source@;
        let ghost upto = src.take(self.end as int);
        proof {
            assert(upto.take(self.start as int) =~= src.take(self.start as int));
            lemma_offset_is_boundary(src, self.end as int);
            lemma_utf8_len_split(src, self.end as int);
        }
        let (head, _) = whole.split_at(to);
        proof {
            assert(head.spec_bytes() =~= encode_utf8(upto));
            lemma_offset_is_boundary(upto, self.start as int);
            lemma_utf8_len_split(upto, self.start as int);
        }
        let (_, part) = head.split_at(from);
        proof {
            assert(part.spec_bytes() =~= encode_utf8(upto.skip(self.start as int)));
            encode_utf8_decode_utf8(part@);
            encode_utf8_decode_utf8(upto.skip(self.start as int));
        }
        part
    }
}

impl<'a> IndexedStr for IndexedSlice<'a> {
    fn as_str(&self) -> (s: &str) {
        self.clone().into_str()
    }

    fn as_slice(&self) -> (s: IndexedSlice<'_>) {
        proof {
            use_type_invariant(self);
        }
        IndexedSlice { source: self.source, start: self.start, end: self.end }
    }

    fn len(&self) -> (n: usize) {
        proof {
            use_type_invariant(self);
        }
        self.end - self.start
    }

    fn byte_len(&self) -> (n: usize) {
        proof {
            use_type_invariant(self);
            let src = self.source@;
            assert(src.take(src.len() as int) =~= src);
            lemma_encode_subrange(src, self.start as int, self.end as int);
        }
        self.source.byte_offset(self.end) - self.source.byte_offset(self.start)
    }

    fn is_empty(&self) -> (b: bool) {
        proof {
            use_type_invariant(self);
        }
        self.start == self.end
    }

    fn char_at(&self, index: usize) -> (c: Option<char>) {
        proof {
            use_type_invariant(self);
        }
        if index < self.end - self.start {
            Some(self.source.chars[self.start + index])
        } else {
            None
        }
    }

    fn slice<R: CharRange>(&self, range: R) -> (s: IndexedSlice<'_>) {
        proof {
            use_type_invariant(self);
        }
        let (start, end) = range.clamp_to(self.end - self.start);
        IndexedSlice { source: self.source, start: self.start + start, end: self.start + end }
    }

    fn chars(&self) -> (c: &[char]) {
        proof {
            use_type_invariant(self);
        }
        slice_subrange(self.source.chars.as_slice(), self.start, self.end)
    }

    fn to_indexed_string(&self) -> (s: IndexedString) {
        IndexedString::from_vec(vstd::slice::slice_to_vec(self.chars()))
    }

    fn lines(&self) -> (v: Vec<IndexedSlice<'_>>) {
        proof {
            use_type_invariant(self);
        }
        lines_between(self.source, self.start, self.end)
    }
}

impl IndexedString {
    /// The text as a `String`.
    pub fn to_string(&self) -> (s: String)
        ensures
            s@ == self@,
    {
        self.as_str().to_owned()
    }
}

impl<'a> IndexedSlice<'a> {
    /// The text as a `String`.
    pub fn to_string(&self) -> (s: String)
        ensures
            s@ == self@,
    {
        self.as_str().to_owned()
    }
}

impl std::ops::Index<usize> for IndexedString {
    type Output = char;

    /// The character at `index`, which lies within the text.
    fn index(&self, index: usize) -> (c: &char)
        ensures
            *c == self@[index as int],
    {
        &self.chars[index]
    }
}

impl vstd::std_specs::core::IndexSpecImpl<usize> for IndexedString {
    open spec fn index_req(&self, index: &usize) -> bool {
        *index < self@.len()
    }
}

impl<'a> std::ops::Index<usize> for IndexedSlice<'a> {
    type Output = char;

    /// The character at `index`, which lies within the slice.
    fn index(&self, index: usize) -> (c: &char)
        ensures
            *c == self@[index as int],
    {
        proof {
            use_type_invariant(self);
        }
        &self.source.chars[self.start + index]
    }
}

impl<'a> vstd::std_specs::core::IndexSpecImpl<usize> for IndexedSlice<'a> {
    open spec fn index_req(&self, index: &usize) -> bool {
        *index < self@.len()
    }
}

impl From<String> for IndexedString {
    fn from(s: String) -> (r: IndexedString)
        ensures
            r@ == s@,
    {
        IndexedString::from_str(s.as_str())
    }
}

impl FromSpecImpl<String> for IndexedString {
    /// The result is stated by view, in the contract of `from`.
    open spec fn obeys_from_spec() -> bool {
        false
    }

    open spec fn from_spec(s: String) -> IndexedString {
        arbitrary()
    }
}

impl<'b> From<&'b str> for IndexedString {
    fn from(s: &'b str) -> (r: IndexedString)
        ensures
            r@ == s@,
    {
        IndexedString::from_str(s)
    }
}

impl<'b> FromSpecImpl<&'b str> for IndexedString {
    /// The result is stated by view, in the contract of `from`.
    open spec fn obeys_from_spec() -> bool {
        false
    }

    open spec fn from_spec(s: &'b str) -> IndexedString {
        arbitrary()
    }
}

impl<'b> From<&'b String> for IndexedString {
    fn from(s: &'b String) -> (r: IndexedString)
        ensures
            r@ == s@,
    {
        IndexedString::from_str(s.as_str())
    }
}

impl<'b> FromSpecImpl<&'b String> for IndexedString {
    /// The result is stated by view, in the contract of `from`.
    open spec fn obeys_from_spec() -> bool {
        false
    }

    open spec fn from_spec(s: &'b String) -> IndexedString {
        arbitrary()
    }
}

impl<'a> From<&'a IndexedString> for IndexedSlice<'a> {
    fn from(s: &'a IndexedString) -> (r: IndexedSlice<'a>)
        ensures
            r@ == s@,
    {
        IndexedSlice { source: s, start: 0, end: s.chars.len() }
    }
}

impl<'a> FromSpecImpl<&'a IndexedString> for IndexedSlice<'a> {
    /// The result is stated by view, in the contract of `from`.
    open spec fn obeys_from_spec() -> bool {
        false
    }

    open spec fn from_spec(s: &'a IndexedString) -> IndexedSlice<'a> {
        arbitrary()
    }
}

} // verus!
