//! Spans: a range of one shared source. A span never copies text; its text,
//! its line and column and the lines it touches are computed on demand.
//!
//! The two ends of a span count characters of the source. In text that is all
//! ASCII they are byte offsets as well.

use crate::indexed_string::{
    clamp_bounds, clamp_range, lemma_line_end, line_end, line_ranges, lines_of, IndexedSlice,
    IndexedStr,
};
use crate::source::{share, Source, SourceView};
use std::ops::Range;
use std::rc::Rc;
use vstd::prelude::*;
use vstd::std_specs::cmp::PartialEqSpecImpl;

verus! {

/// What a [`Span`] holds: its source and the two ends of its range.
pub struct SpanView {
    pub source: SourceView,
    pub start: nat,
    pub end: nat,
}

/// A line and a column of a source, both counted from zero.
#[derive(Copy, Clone, PartialEq, Eq, Structural, Debug, Hash, PartialOrd, Ord)]
pub struct LineCol {
    /// The line, counted from zero.
    pub line: usize,
    /// The column, counted from zero.
    pub col: usize,
}

/// Two spans of different sources cannot be joined.
#[derive(Copy, Clone, PartialEq, Eq, Structural, Debug, Hash)]
pub struct SpanJoinError;

impl SpanJoinError {
    /// The message of the error.
    pub fn to_string(&self) -> (s: String)
        ensures
            s@ == "the specified spans do not come from the same source"@,
    {
        "the specified spans do not come from the same source".to_owned()
    }
}

/// The span of `source` from `start` to `end`, the end lowered to the length of
/// the source.
pub open spec fn span_at(source: SourceView, start: int, end: int) -> SpanView {
    SpanView {
        source,
        start: start as nat,
        end: (if end > source.text.len() {
            source.text.len() as int
        } else {
            end
        }) as nat,
    }
}

/// The line and the column reached after the first `i` characters of `s`: a
/// line feed starts a new line at column zero, any other character adds a
/// column.
pub open spec fn line_col_at(s: Seq<char>, i: int) -> (nat, nat)
    decreases i,
{
    if i <= 0 || i > s.len() {
        (0, 0)
    } else {
        let before = line_col_at(s, i - 1);
        if s[i - 1] == '\n' {
            (before.0 + 1, 0)
        } else {
            (before.0, before.1 + 1)
        }
    }
}

/// The part of line `i`, a line of `len` characters, that a span from `start`
/// to `end` touches, as a range of columns; `None` for a line outside the span.
/// The first line is touched from the start column on, the last up to the end
/// column, and a line between them as a whole.
pub open spec fn line_window(i: int, len: int, start: (nat, nat), end: (nat, nat)) -> Option<
    (int, int),
> {
    if start.0 == end.0 && end.0 == i {
        Some((start.1 as int, end.1 as int))
    } else if i == start.0 {
        Some((start.1 as int, len))
    } else if start.0 < i < end.0 {
        Some((0, len))
    } else if i == end.0 {
        Some((0, end.1 as int))
    } else {
        None
    }
}

/// The touched lines among the first `n` of `lines`, each with its window.
pub open spec fn touched_lines(
    lines: Seq<Seq<char>>,
    n: int,
    start: (nat, nat),
    end: (nat, nat),
) -> Seq<(Seq<char>, (int, int))>
    decreases n,
{
    if n <= 0 || n > lines.len() {
        Seq::empty()
    } else {
        let before = touched_lines(lines, n - 1, start, end);
        match line_window(n - 1, lines[n - 1].len() as int, start, end) {
            Some(w) => before.push((lines[n - 1], w)),
            None => before,
        }
    }
}

impl SpanView {
    /// The range of the span as it applies to the text: clamped to it.
    pub open spec fn range(self) -> (int, int) {
        clamp_range(self.start as int, self.end as int, self.source.text.len() as int)
    }

    /// The characters that the span covers.
    pub open spec fn text(self) -> Seq<char> {
        self.source.text.subrange(self.range().0, self.range().1)
    }

    /// Line and column of the start of the span.
    pub open spec fn start_line_col(self) -> (nat, nat) {
        line_col_at(self.source.text, self.range().0)
    }

    /// Line and column of the end of the span.
    pub open spec fn end_line_col(self) -> (nat, nat) {
        line_col_at(self.source.text, self.range().1)
    }

    /// The lines of the source that the span touches, each with the columns
    /// of it that the span covers.
    pub open spec fn lines(self) -> Seq<(Seq<char>, (int, int))> {
        let lines = lines_of(self.source.text);
        touched_lines(lines, lines.len() as int, self.start_line_col(), self.end_line_col())
    }

    /// Whether the range is empty.
    pub open spec fn is_blank(self) -> bool {
        self.start == self.end
    }
}

/// Within a line the line number stays and the column counts the characters
/// from the start of the line.
proof fn lemma_line_col_in_line(s: Seq<char>, from: int, i: int, r: nat)
    requires
        0 <= from <= i <= line_end(s, from),
        from <= s.len(),
        line_col_at(s, from) == (r, 0nat),
    ensures
        line_col_at(s, i) == (r, (i - from) as nat),
    decreases i - from,
{
    lemma_line_end(s, from);
    if i > from {
        lemma_line_col_in_line(s, from, i - 1, r);
    }
}

/// The lines from a line start on are numbered in order, each runs to its line
/// end, and the last of them ends the text.
proof fn lemma_line_ranges(s: Seq<char>, from: int, r: nat)
    requires
        0 <= from <= s.len(),
        line_col_at(s, from) == (r, 0nat),
    ensures
        line_ranges(s, from).len() >= 1,
        forall|k: int|
            0 <= k < line_ranges(s, from).len() ==> {
                let range = #[trigger] line_ranges(s, from)[k];
                &&& from <= range.0 <= range.1 <= s.len()
                &&& range.1 == line_end(s, range.0)
                &&& line_col_at(s, range.0) == ((r + k) as nat, 0nat)
            },
        line_col_at(s, s.len() as int).0 == r + line_ranges(s, from).len() - 1,
    decreases s.len() - from,
{
    let e = line_end(s, from);
    lemma_line_end(s, from);
    lemma_line_col_in_line(s, from, e, r);
    if e < s.len() {
        lemma_line_ranges(s, e + 1, r + 1);
    }
}

/// The line number never falls as the index grows.
proof fn lemma_line_grows(s: Seq<char>, i: int, j: int)
    requires
        0 <= i <= j <= s.len(),
    ensures
        line_col_at(s, i).0 <= line_col_at(s, j).0,
    decreases j - i,
{
    if i < j {
        lemma_line_grows(s, i, j - 1);
    }
}

/// The touched lines among the first `n` are those from the first line of the
/// span up to its last, each with its window.
proof fn lemma_touched_upto(lines: Seq<Seq<char>>, n: int, start: (nat, nat), end: (nat, nat))
    requires
        start.0 <= end.0,
        0 <= n <= lines.len(),
    ensures
        touched_lines(lines, n, start, end).len() == (if n <= start.0 {
            0
        } else if n <= end.0 + 1 {
            n - start.0
        } else {
            end.0 - start.0 + 1
        }),
        forall|k: int|
            0 <= k < touched_lines(lines, n, start, end).len() ==> #[trigger] touched_lines(
                lines,
                n,
                start,
                end,
            )[k] == (
                lines[start.0 + k],
                line_window(start.0 + k, lines[start.0 + k].len() as int, start, end)->Some_0,
            ),
    decreases n,
{
    if n > 0 {
        lemma_touched_upto(lines, n - 1, start, end);
    }
}

/// A span touches the lines from the line of its start up to the line of its
/// end, all of them and no other: that many lines are given, in order, the
/// first from the start column on and the last up to the end column.
pub proof fn lemma_span_lines(v: SpanView)
    ensures
        ({
            let start = v.start_line_col();
            let end = v.end_line_col();
            let lines = lines_of(v.source.text);
            &&& start.0 <= end.0 < lines.len()
            &&& start.0 == end.0 ==> start.1 <= end.1
            &&& v.lines().len() == end.0 - start.0 + 1
            &&& forall|k: int|
                0 <= k < v.lines().len() ==> #[trigger] v.lines()[k] == (
                    lines[start.0 + k],
                    line_window(start.0 + k, lines[start.0 + k].len() as int, start, end)->Some_0,
                )
        }),
{
    let text = v.source.text;
    let range = v.range();
    let start = v.start_line_col();
    let end = v.end_line_col();
    let lines = lines_of(text);
    lemma_line_grows(text, range.0, range.1);
    lemma_line_grows(text, range.1, text.len() as int);
    lemma_line_ranges(text, 0, 0);
    lemma_touched_upto(lines, lines.len() as int, start, end);
    if start.0 == end.0 {
        lemma_same_line(text, range.0, range.1);
    }
}

/// Two indices on one line are as far apart as their columns.
proof fn lemma_same_line(s: Seq<char>, i: int, j: int)
    requires
        0 <= i <= j <= s.len(),
        line_col_at(s, i).0 == line_col_at(s, j).0,
    ensures
        line_col_at(s, j).1 == line_col_at(s, i).1 + (j - i),
    decreases j - i,
{
    if i < j {
        lemma_line_grows(s, i, j - 1);
        lemma_same_line(s, i, j - 1);
    }
}

/// What joining `a` and `b` gives. A span of an empty source is the identity;
/// two spans of one source give the smallest span that covers both; spans of
/// two different sources cannot be joined.
pub open spec fn join_spec(a: SpanView, b: SpanView) -> Result<SpanView, SpanJoinError> {
    if a.source.text.len() == 0 {
        Ok(b)
    } else if b.source.text.len() == 0 {
        Ok(a)
    } else if a.source != b.source {
        Err(SpanJoinError)
    } else {
        Ok(
            SpanView {
                source: a.source,
                start: if a.start <= b.start {
                    a.start
                } else {
                    b.start
                },
                end: if a.end >= b.end {
                    a.end
                } else {
                    b.end
                },
            },
        )
    }
}

/// The blank span: the empty range of an empty source that names no file.
pub open spec fn blank_span() -> SpanView {
    SpanView { source: SourceView { text: Seq::empty(), path: None }, start: 0, end: 0 }
}

/// Joining the blank span with any span gives that span.
pub proof fn lemma_join_blank_left(x: SpanView)
    ensures
        join_spec(blank_span(), x) == Ok::<SpanView, SpanJoinError>(x),
{
}

/// Joining a span of a source that is not empty with the blank span gives the
/// span unchanged.
pub proof fn lemma_join_blank_right(x: SpanView)
    requires
        x.source.text.len() > 0,
    ensures
        join_spec(x, blank_span()) == Ok::<SpanView, SpanJoinError>(x),
{
}

/// Two spans of different sources, neither source empty, cannot be joined.
pub proof fn lemma_join_different_sources(a: SpanView, b: SpanView)
    requires
        a.source.text.len() > 0,
        b.source.text.len() > 0,
        a.source != b.source,
    ensures
        join_spec(a, b) == Err::<SpanView, SpanJoinError>(SpanJoinError),
{
}

/// Two spans of one source that is not empty join to the span of that source
/// from the lesser start to the greater end, and that span covers both.
pub proof fn lemma_join_same_source(a: SpanView, b: SpanView)
    requires
        a.source.text.len() > 0,
        a.source == b.source,
    ensures
        join_spec(a, b) matches Ok(j) && {
            &&& j.source == a.source
            &&& j.start == vstd::math::min(a.start as int, b.start as int)
            &&& j.end == vstd::math::max(a.end as int, b.end as int)
            &&& j.start <= a.start && j.start <= b.start
            &&& a.end <= j.end && b.end <= j.end
        },
{
}

/// Joining is commutative on spans of one source that is not empty.
pub proof fn lemma_join_commutes(a: SpanView, b: SpanView)
    requires
        a.source.text.len() > 0,
        a.source == b.source,
    ensures
        join_spec(a, b) == join_spec(b, a),
{
}

/// A range of a shared [`Source`].
#[derive(Debug, Hash)]
pub struct Span {
    source: Rc<Source>,
    byte_range: Range<usize>,
}

impl View for Span {
    type V = SpanView;

    closed spec fn view(&self) -> SpanView {
        SpanView {
            source: self.source@,
            start: self.byte_range.start as nat,
            end: self.byte_range.end as nat,
        }
    }
}

impl Span {
    /// The end of the range lies within the source.
    #[verifier::type_invariant]
    spec fn wf(&self) -> bool {
        self.byte_range.end <= self.source@.text.len()
    }

    /// The blank span, which joins with a span of any source and gives that span.
    pub fn blank() -> (r: Span)
        ensures
            r@ == blank_span(),
    {
        proof {
            reveal_strlit("");
            assert(""@ =~= Seq::<char>::empty());
        }
        Span::new(Rc::new(Source::from_str("")), 0..0)
    }

    /// The span of `source` over `byte_range`, its end lowered to the length of
    /// the source.
    pub fn new(source: Rc<Source>, byte_range: Range<usize>) -> (r: Span)
        ensures
            r@ == span_at(source@, byte_range.start as int, byte_range.end as int),
    {
        let len: usize = source.len();
        let end: usize = if byte_range.end > len {
            len
        } else {
            byte_range.end
        };
        Span { source, byte_range: byte_range.start..end }
    }

    /// The source that the span points into.
    pub fn source(&self) -> (s: &Source)
        ensures
            s@ == self@.source,
    {
        &*self.source
    }

    /// The text that the span covers.
    pub fn source_text(&self) -> (s: IndexedSlice<'_>)
        ensures
            s@ == self@.text(),
    {
        self.source.text().slice(self.byte_range.start..self.byte_range.end)
    }

    /// The path of the file that the source came from, if it came from one.
    pub fn source_path(&self) -> (p: Option<&str>)
        ensures
            match p {
                Some(s) => self@.source.path == Some(s@),
                None => self@.source.path is None,
            },
    {
        self.source.source_path()
    }

    /// The two ends of the span. The end lies within the source.
    pub fn byte_range(&self) -> (r: &Range<usize>)
        ensures
            r.start == self@.start,
            r.end == self@.end,
            self@.end <= self@.source.text.len(),
    {
        proof {
            use_type_invariant(self);
        }
        &self.byte_range
    }

    /// Line and column after the first `upto` characters of the source.
    fn line_col(&self, upto: usize) -> (r: LineCol)
        requires
            upto <= self@.source.text.len(),
        ensures
            (r.line as nat, r.col as nat) == line_col_at(self@.source.text, upto as int),
    {
        let chars = self.source.text().chars();
        let mut line: usize = 0;
        let mut col: usize = 0;
        let mut i: usize = 0;
        while i < upto
            invariant
                i <= upto <= chars@.len(),
                chars@ == self@.source.text,
                (line as nat, col as nat) == line_col_at(chars@, i as int),
                line + col <= i,
            decreases upto - i,
        {
            if chars[i] == '\n' {
                col = 0;
                line += 1;
            } else {
                col += 1;
            }
            i += 1;
        }
        LineCol { line, col }
    }

    /// Line and column of the start of the span.
    pub fn start(&self) -> (r: LineCol)
        ensures
            (r.line as nat, r.col as nat) == self@.start_line_col(),
    {
        let (from, _) = clamp_bounds(self.byte_range.start, self.byte_range.end, self.source.len());
        self.line_col(from)
    }

    /// Line and column of the end of the span.
    pub fn end(&self) -> (r: LineCol)
        ensures
            (r.line as nat, r.col as nat) == self@.end_line_col(),
    {
        let (_, to) = clamp_bounds(self.byte_range.start, self.byte_range.end, self.source.len());
        self.line_col(to)
    }

    /// The lines of the source that the span touches, in order, each with the
    /// range of its columns that the span covers.
    pub fn source_lines(&self) -> (v: Vec<(IndexedSlice<'_>, Range<usize>)>)
        ensures
            v@.len() == self@.lines().len(),
            forall|k: int|
                0 <= k < v@.len() ==> {
                    &&& (#[trigger] v@[k]).0@ == self@.lines()[k].0
                    &&& v@[k].1.start == self@.lines()[k].1.0
                    &&& v@[k].1.end == self@.lines()[k].1.1
                },
    {
        let start = self.start();
        let end = self.end();
        let lines = self.source.text().lines();
        let ghost all = lines_of(self@.source.text);
        let ghost s = self@.start_line_col();
        let ghost e = self@.end_line_col();
        let mut v: Vec<(IndexedSlice<'_>, Range<usize>)> = Vec::new();
        let mut i: usize = 0;
        while i < lines.len()
            invariant
                i <= lines@.len(),
                lines@.len() == all.len(),
                forall|k: int| 0 <= k < lines@.len() ==> (#[trigger] lines@[k])@ == all[k],
                (start.line as nat, start.col as nat) == s,
                (end.line as nat, end.col as nat) == e,
                v@.len() == touched_lines(all, i as int, s, e).len(),
                forall|k: int|
                    0 <= k < v@.len() ==> {
                        &&& (#[trigger] v@[k]).0@ == touched_lines(all, i as int, s, e)[k].0
                        &&& v@[k].1.start == touched_lines(all, i as int, s, e)[k].1.0
                        &&& v@[k].1.end == touched_lines(all, i as int, s, e)[k].1.1
                    },
            decreases lines@.len() - i,
        {
            let line = lines[i].clone();
            let len: usize = line.len();
            if start.line == end.line && end.line == i {
                v.push((line, start.col..end.col));
            } else if i == start.line {
                v.push((line, start.col..len));
            } else if i > start.line && i < end.line {
                v.push((line, 0..len));
            } else if i == end.line {
                v.push((line, 0..end.col));
            }
            i += 1;
        }
        v
    }

    /// The smallest span that covers both spans. A span of an empty source joins
    /// with any span and gives that span; two spans of different sources, neither
    /// of them empty, cannot be joined.
    pub fn join(&self, other: &Span) -> (r: Result<Span, SpanJoinError>)
        ensures
            match r {
                Ok(s) => join_spec(self@, other@) == Ok::<SpanView, SpanJoinError>(s@),
                Err(e) => join_spec(self@, other@) is Err,
            },
    {
        proof {
            use_type_invariant(self);
            use_type_invariant(other);
        }
        if self.source.is_empty() {
            return Ok(other.clone());
        }
        if other.source.is_empty() {
            return Ok(self.clone());
        }
        if !self.source.same(&*other.source) {
            return Err(SpanJoinError);
        }
        let start: usize = if self.byte_range.start <= other.byte_range.start {
            self.byte_range.start
        } else {
            other.byte_range.start
        };
        let end: usize = if self.byte_range.end >= other.byte_range.end {
            self.byte_range.end
        } else {
            other.byte_range.end
        };
        Ok(Span { source: share(&self.source), byte_range: start..end })
    }

    /// Whether the range of the span is empty.
    pub fn is_blank(&self) -> (b: bool)
        ensures
            b == self@.is_blank(),
    {
        self.byte_range.start == self.byte_range.end
    }
}

impl Clone for Span {
    fn clone(&self) -> (r: Span)
        ensures
            r@ == self@,
    {
        proof {
            use_type_invariant(self);
        }
        Span {
            source: share(&self.source),
            byte_range: self.byte_range.start..self.byte_range.end,
        }
    }
}

impl PartialEq for Span {
    fn eq(&self, other: &Span) -> (r: bool) {
        self.byte_range.start == other.byte_range.start && self.byte_range.end
            == other.byte_range.end && self.source.same(&*other.source)
    }
}

impl PartialEqSpecImpl for Span {
    open spec fn obeys_eq_spec() -> bool {
        true
    }

    open spec fn eq_spec(&self, other: &Span) -> bool {
        self@ == other@
    }
}

impl Eq for Span {

}

/// A value that lies at a span of a source.
pub trait Spanned {
    /// The span of the value.
    spec fn span_view(&self) -> SpanView;

    /// The span of the value. A value made of several parts gives the join of
    /// their spans.
    fn span(&self) -> (s: Span)
        ensures
            s@ == self.span_view(),
    ;
}

impl Spanned for Span {
    open spec fn span_view(&self) -> SpanView {
        self@
    }

    fn span(&self) -> (s: Span) {
        self.clone()
    }
}

/// The views of the spans in `spans`.
pub open spec fn span_views(spans: Seq<Span>) -> Seq<SpanView> {
    spans.map_values(|s: Span| s@)
}

/// A value that holds several spans.
pub trait MultiSpan {
    /// The spans of the value, in order.
    spec fn spans_view(self) -> Seq<SpanView>;

    /// The spans of the value, in order.
    fn into_spans(self) -> (v: Vec<Span>)
        ensures
            span_views(v@) == self.spans_view(),
    ;
}

impl MultiSpan for Vec<Span> {
    open spec fn spans_view(self) -> Seq<SpanView> {
        span_views(self@)
    }

    fn into_spans(self) -> (v: Vec<Span>) {
        self
    }
}

} // verus!
