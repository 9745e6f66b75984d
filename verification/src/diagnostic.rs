//! Diagnostics: a message of some level about a span of a source, with
//! diagnostics about related facts below it, and its rendering as text with
//! the touched source lines underlined.

use crate::indexed_string::{IndexedSlice, IndexedStr};
use crate::span::{join_spec, Span, SpanJoinError, SpanView, Spanned};
use crate::text::{
    decimal, digit_count, is_whitespace, is_whitespace_char, push_decimal, push_spaces, spaces,
};
use std::ops::Range;
use vstd::prelude::*;
use vstd::string::StringExecFns;

verus! {

/// How severe a [`Diagnostic`] is.
#[derive(Copy, Clone, PartialEq, Eq, Structural, Debug, Hash)]
pub enum DiagnosticLevel {
    /// An error.
    Error,
    /// A warning.
    Warning,
    /// A note.
    Note,
    /// A hint at what may help.
    Help,
}

impl DiagnosticLevel {
    /// The word that a rendering starts with.
    pub open spec fn name(self) -> Seq<char> {
        match self {
            DiagnosticLevel::Error => "error"@,
            DiagnosticLevel::Warning => "warning"@,
            DiagnosticLevel::Note => "note"@,
            DiagnosticLevel::Help => "help"@,
        }
    }

    /// The word that a rendering starts with.
    pub fn as_str(&self) -> (s: &'static str)
        ensures
            s@ == self.name(),
    {
        match self {
            DiagnosticLevel::Error => "error",
            DiagnosticLevel::Warning => "warning",
            DiagnosticLevel::Note => "note",
            DiagnosticLevel::Help => "help",
        }
    }

    /// The level as text.
    pub fn to_string(&self) -> (s: String)
        ensures
            s@ == self.name(),
    {
        String::from_str(self.as_str())
    }
}

/// What a [`Diagnostic`] holds.
pub struct DiagnosticView {
    pub level: DiagnosticLevel,
    pub span: SpanView,
    pub message: Seq<char>,
    pub context_name: Option<Seq<char>>,
    pub children: Seq<DiagnosticView>,
}

/// The join of the span of `d` with the merged spans of its first `n` children,
/// each child merged as a whole: the smallest span that covers them all, or an
/// error where two of them lie in different sources.
pub open spec fn merged_upto(d: DiagnosticView, n: nat) -> Result<SpanView, SpanJoinError>
    decreases d, n,
{
    if n == 0 || n > d.children.len() {
        Ok(d.span)
    } else {
        match merged_upto(d, (n - 1) as nat) {
            Err(e) => Err(e),
            Ok(before) => {
                let child = d.children[n - 1];
                match merged_upto(child, child.children.len()) {
                    Err(e) => Err(e),
                    Ok(below) => join_spec(before, below),
                }
            },
        }
    }
}

/// The character under column `i` of `line` in the underline of the columns
/// from `from` up to `to`: a caret, or a space where the column is white space
/// and the flagged column before or after it is white space too, and a space
/// past the end of the line.
pub open spec fn caret_at(line: Seq<char>, from: int, to: int, i: int) -> char {
    if i < 0 || i >= line.len() {
        ' '
    } else {
        let current = is_whitespace_char(line[i]);
        let before = from < i && is_whitespace_char(line[i - 1]);
        let after = i + 1 < to && i + 1 < line.len() && is_whitespace_char(line[i + 1]);
        if current && (after || before) {
            ' '
        } else {
            '^'
        }
    }
}

/// The underline of the columns from `from` up to `to` of `line`.
pub open spec fn carets(line: Seq<char>, from: int, to: int) -> Seq<char> {
    if to <= from {
        Seq::empty()
    } else {
        Seq::new((to - from) as nat, |k: int| caret_at(line, from, to, from + k))
    }
}

/// The two rendered lines for one source line: its number and text, and below
/// it the underline of the columns in `window`, behind a gutter `width` wide.
pub open spec fn excerpt(number: nat, width: nat, line: Seq<char>, window: (int, int)) -> Seq<
    char,
> {
    decimal(number) + " | "@ + line + "\n"@ + spaces(width) + "   "@ + spaces(window.0 as nat)
        + carets(line, window.0, window.1) + "\n"@
}

impl DiagnosticView {
    /// The span that covers the diagnostic and everything below it.
    pub open spec fn merged_span(self) -> Result<SpanView, SpanJoinError> {
        merged_upto(self, self.children.len())
    }

    /// The name shown for the source: its path, else the context name, else
    /// `input`.
    pub open spec fn origin(self) -> Seq<char> {
        match self.span.source.path {
            Some(p) => p,
            None => match self.context_name {
                Some(n) => n,
                None => "input"@,
            },
        }
    }

    /// The context name, `input` where none is set.
    pub open spec fn context(self) -> Seq<char> {
        match self.context_name {
            Some(n) => n,
            None => "input"@,
        }
    }

    /// The width of the gutter: the number of digits of the number of the
    /// first line, lines counted from one.
    pub open spec fn gutter(self) -> nat {
        digit_count(self.span.start_line_col().0 + 1)
    }

    /// The first three lines of the rendering: level and message, where the
    /// span starts, and an empty gutter line.
    pub open spec fn head(self) -> Seq<char> {
        let at = self.span.start_line_col();
        self.level.name() + ": "@ + self.message + "\n"@ + spaces((self.gutter() - 1) as nat)
            + " --> "@ + self.origin() + ":"@ + decimal(at.0 + 1) + ":"@ + decimal(at.1) + "\n"@
            + spaces(self.gutter()) + " |\n"@
    }

    /// The excerpts of the first `n` lines that the span touches.
    pub open spec fn excerpts(self, n: nat) -> Seq<char>
        decreases n,
    {
        if n == 0 || n > self.span.lines().len() {
            Seq::empty()
        } else {
            let touched = self.span.lines()[n - 1];
            self.excerpts((n - 1) as nat) + excerpt(
                self.span.start_line_col().0 + n,
                self.gutter(),
                touched.0,
                touched.1,
            )
        }
    }

    /// The rendering without the children: head and excerpts.
    pub open spec fn own_text(self) -> Seq<char> {
        self.head() + self.excerpts(self.span.lines().len())
    }
}

/// The rendering of `d` followed by those of its first `n` children.
pub open spec fn rendered_upto(d: DiagnosticView, n: nat) -> Seq<char>
    decreases d, n,
{
    if n == 0 || n > d.children.len() {
        d.own_text()
    } else {
        let child = d.children[n - 1];
        rendered_upto(d, (n - 1) as nat) + rendered_upto(child, child.children.len())
    }
}

/// The rendering of a diagnostic: its head, the excerpt of each source line
/// that its span touches, and then the renderings of its children in order.
pub open spec fn rendered(d: DiagnosticView) -> Seq<char> {
    rendered_upto(d, d.children.len())
}

/// A message of some level about a span of a source, with related diagnostics
/// below it.
#[derive(PartialEq, Eq, Debug, Hash)]
pub struct Diagnostic {
    level: DiagnosticLevel,
    span: Span,
    message: String,
    context_name: Option<String>,
    children: Vec<Diagnostic>,
}

impl View for Diagnostic {
    type V = DiagnosticView;

    closed spec fn view(&self) -> DiagnosticView {
        self.model()
    }
}

/// The models of the first `n` diagnostics of `v`.
spec fn models_upto(v: Seq<Diagnostic>, n: nat) -> Seq<DiagnosticView>
    decreases v, n,
{
    if n == 0 || n > v.len() {
        Seq::empty()
    } else {
        models_upto(v, (n - 1) as nat).push(v[n - 1].model())
    }
}

/// The models of the first `n` diagnostics are their views, in order.
proof fn lemma_models(v: Seq<Diagnostic>, n: nat)
    requires
        n <= v.len(),
    ensures
        models_upto(v, n).len() == n,
        forall|i: int| 0 <= i < n ==> models_upto(v, n)[i] == (#[trigger] v[i])@,
    decreases n,
{
    if n > 0 {
        lemma_models(v, (n - 1) as nat);
    }
}

/// The views of the diagnostics in `v`.
pub open spec fn diagnostic_views(v: Seq<Diagnostic>) -> Seq<DiagnosticView> {
    Seq::new(v.len(), |i: int| v[i]@)
}

impl Diagnostic {
    /// What the diagnostic holds, the children by what they hold.
    spec fn model(&self) -> DiagnosticView
        decreases self,
    {
        DiagnosticView {
            level: self.level,
            span: self.span@,
            message: self.message@,
            context_name: match self.context_name {
                Some(n) => Some(n@),
                None => None,
            },
            children: models_upto(self.children@, self.children@.len()),
        }
    }

    /// The view holds the fields, and the views of the children in order.
    proof fn lemma_view(&self)
        ensures
            self@.level == self.level,
            self@.span == self.span@,
            self@.message == self.message@,
            self@.children == diagnostic_views(self.children@),
            self@.children.len() == self.children@.len(),
            forall|i: int|
                0 <= i < self.children@.len() ==> self@.children[i] == (
                #[trigger] self.children@[i])@,
    {
        lemma_models(self.children@, self.children@.len());
    }

    /// A diagnostic of the given parts.
    pub fn new(
        level: DiagnosticLevel,
        span: Span,
        message: &str,
        context_name: Option<&str>,
        children: Vec<Diagnostic>,
    ) -> (r: Diagnostic)
        ensures
            r@ == (DiagnosticView {
                level,
                span: span@,
                message: message@,
                context_name: match context_name {
                    Some(n) => Some(n@),
                    None => None,
                },
                children: diagnostic_views(children@),
            }),
    {
        let r = Diagnostic {
            level,
            span,
            message: String::from_str(message),
            context_name: match context_name {
                Some(n) => Some(String::from_str(n)),
                None => None,
            },
            children,
        };
        proof {
            r.lemma_view();
        }
        r
    }

    /// Sets the level.
    pub fn set_level(&mut self, level: DiagnosticLevel)
        ensures
            final(self)@ == (DiagnosticView { level, ..old(self)@ }),
    {
        self.level = level;
    }

    /// Sets the message.
    pub fn set_message(&mut self, message: &str)
        ensures
            final(self)@ == (DiagnosticView { message: message@, ..old(self)@ }),
    {
        self.message = String::from_str(message);
    }

    /// Sets or clears the context name.
    pub fn set_context_name(&mut self, name: Option<&str>)
        ensures
            final(self)@ == (DiagnosticView {
                context_name: match name {
                    Some(n) => Some(n@),
                    None => None,
                },
                ..old(self)@
            }),
    {
        self.context_name = match name {
            Some(n) => Some(String::from_str(n)),
            None => None,
        };
    }

    /// The level.
    pub fn level(&self) -> (l: DiagnosticLevel)
        ensures
            l == self@.level,
    {
        self.level
    }

    /// The message.
    pub fn message(&self) -> (m: &str)
        ensures
            m@ == self@.message,
    {
        self.message.as_str()
    }

    /// The name of what the source is: the context name that was set, or `input`.
    pub fn context_name(&self) -> (n: &str)
        ensures
            n@ == self@.context(),
    {
        match &self.context_name {
            Some(n) => n.as_str(),
            None => "input",
        }
    }

    /// The diagnostics below this one.
    pub fn children(&self) -> (c: &Vec<Diagnostic>)
        ensures
            diagnostic_views(c@) == self@.children,
    {
        proof {
            self.lemma_view();
        }
        &self.children
    }

    /// The span that covers this diagnostic and all below it; an error where
    /// two of them lie in different sources.
    pub fn merged_span(&self) -> (r: Result<Span, SpanJoinError>)
        ensures
            match r {
                Ok(s) => self@.merged_span() == Ok::<SpanView, SpanJoinError>(s@),
                Err(e) => self@.merged_span() is Err,
            },
        decreases self,
    {
        let mut merged = self.span.clone();
        let mut i: usize = 0;
        proof {
            self.lemma_view();
        }
        while i < self.children.len()
            invariant
                i <= self.children@.len(),
                merged_upto(self@, i as nat) == Ok::<SpanView, SpanJoinError>(merged@),
                self@.children == diagnostic_views(self.children@),
            decreases self.children@.len() - i,
        {
            let child = &self.children[i];
            let below = match child.merged_span() {
                Ok(s) => s,
                Err(e) => {
                    proof {
                        lemma_merged_error(self@, (i + 1) as nat, self@.children.len());
                    }
                    return Err(e);
                },
            };
            merged = match merged.join(&below) {
                Ok(s) => s,
                Err(e) => {
                    proof {
                        lemma_merged_error(self@, (i + 1) as nat, self@.children.len());
                    }
                    return Err(e);
                },
            };
            i += 1;
        }
        Ok(merged)
    }
}

/// How many decimal digits the number after `line` has.
fn count_digits(line: usize) -> (c: usize)
    ensures
        c == digit_count((line + 1) as nat),
        1 <= c,
{
    let mut c: usize = 1;
    let mut rest: u128 = line as u128 + 1;
    while rest >= 10
        invariant
            1 <= c,
            digit_count((line + 1) as nat) == digit_count(rest as nat) + c - 1,
            c + rest <= line + 2,
        decreases rest,
    {
        rest = rest / 10;
        c += 1;
    }
    c
}

/// Appends the underline of the columns from `from` up to `to` of `line`.
fn push_carets(s: &mut String, line: &[char], from: usize, to: usize)
    ensures
        final(s)@ == old(s)@ + carets(line@, from as int, to as int),
{
    if to <= from {
        return ;
    }
    let mut i: usize = from;
    while i < to
        invariant
            from <= i <= to,
            s@ == old(s)@ + Seq::new(
                (i - from) as nat,
                |k: int| caret_at(line@, from as int, to as int, from + k),
            ),
        decreases to - i,
    {
        let c: char = if i >= line.len() {
            ' '
        } else {
            let current = is_whitespace(line[i]);
            let before = from < i && is_whitespace(line[i - 1]);
            let after = i + 1 < to && i + 1 < line.len() && is_whitespace(line[i + 1]);
            if current && (after || before) {
                ' '
            } else {
                '^'
            }
        };
        s.push(c);
        i += 1;
    }
}

/// Appends the two rendered lines for one source line.
fn push_excerpt(
    s: &mut String,
    number: u128,
    width: usize,
    line: &IndexedSlice<'_>,
    window: &Range<usize>,
)
    ensures
        final(s)@ == old(s)@ + excerpt(
            number as nat,
            width as nat,
            line@,
            (window.start as int, window.end as int),
        ),
{
    push_decimal(s, number);
    s.append(" | ");
    s.append(line.as_str());
    s.append("\n");
    push_spaces(s, width);
    s.append("   ");
    push_spaces(s, window.start);
    push_carets(s, line.chars(), window.start, window.end);
    s.append("\n");
}

impl Diagnostic {
    /// The first three lines of the rendering.
    fn head_text(&self, at_line: usize, at_col: usize, width: usize) -> (s: String)
        requires
            (at_line as nat, at_col as nat) == self@.span.start_line_col(),
            width == self@.gutter(),
            width >= 1,
        ensures
            s@ == self@.head(),
    {
        let mut s = self.level.to_string();
        s.append(": ");
        s.append(self.message.as_str());
        s.append("\n");
        push_spaces(&mut s, width - 1);
        s.append(" --> ");
        match self.span.source_path() {
            Some(p) => s.append(p),
            None => s.append(self.context_name()),
        }
        s.append(":");
        push_decimal(&mut s, at_line as u128 + 1);
        s.append(":");
        push_decimal(&mut s, at_col as u128);
        s.append("\n");
        push_spaces(&mut s, width);
        s.append(" |\n");
        s
    }

    /// The diagnostic as text: a line with level and message, a line that says
    /// where the span starts, each source line that the span touches with the
    /// flagged columns underlined, and then the diagnostics below it.
    pub fn to_string(&self) -> (s: String)
        ensures
            s@ == rendered(self@),
        decreases self,
    {
        proof {
            self.lemma_view();
        }
        let at = self.span.start();
        let width = count_digits(at.line);
        let mut s = self.head_text(at.line, at.col, width);
        let lines = self.span.source_lines();
        let mut k: usize = 0;
        while k < lines.len()
            invariant
                k <= lines@.len(),
                lines@.len() == self@.span.lines().len(),
                forall|j: int|
                    0 <= j < lines@.len() ==> {
                        &&& (#[trigger] lines@[j]).0@ == self@.span.lines()[j].0
                        &&& lines@[j].1.start == self@.span.lines()[j].1.0
                        &&& lines@[j].1.end == self@.span.lines()[j].1.1
                    },
                (at.line as nat, at.col as nat) == self@.span.start_line_col(),
                width == self@.gutter(),
                s@ == self@.head() + self@.excerpts(k as nat),
            decreases lines@.len() - k,
        {
            let number: u128 = at.line as u128 + k as u128 + 1;
            push_excerpt(&mut s, number, width, &lines[k].0, &lines[k].1);
            k += 1;
        }
        let mut i: usize = 0;
        while i < self.children.len()
            invariant
                i <= self.children@.len(),
                self@.children == diagnostic_views(self.children@),
                s@ == rendered_upto(self@, i as nat),
            decreases self.children@.len() - i,
        {
            let below = self.children[i].to_string();
            s.append(below.as_str());
            i += 1;
        }
        s
    }
}

/// Once merging has failed at some child, it fails for every longer run of
/// children.
pub proof fn lemma_merged_error(d: DiagnosticView, n: nat, m: nat)
    requires
        merged_upto(d, n) is Err,
        n <= m <= d.children.len(),
    ensures
        merged_upto(d, m) is Err,
    decreases m,
{
    if n < m {
        lemma_merged_error(d, n, (m - 1) as nat);
    }
}

impl Spanned for Diagnostic {
    open spec fn span_view(&self) -> SpanView {
        self@.span
    }

    fn span(&self) -> (s: Span) {
        self.span.clone()
    }
}

} // verus!
