//! Matching a regular expression at the position of a stream. The regular
//! expressions are those of the `regex` crate, which compiles and runs them.

use crate::indexed_string::{char_width, lemma_utf8_len_step, utf8_len, IndexedStr};
use crate::parsable::exact::Exact;
use crate::parsing::{error_view, outcome, Error, Outcome, ParseStream, StreamView};
use crate::span::SpanView;
use regex::Regex;
use vstd::prelude::*;
use vstd::string::StringExecFns;

verus! {

/// `regex::Regex`, a compiled regular expression. Nothing inside it is read.
#[verifier::external_type_specification]
#[verifier::external_body]
pub struct ExRegex(Regex);

/// What `Regex::new` makes of a pattern: the compiled expression, or nothing
/// where the pattern is not accepted.
pub uninterp spec fn regex_compiled(pattern: Seq<char>) -> Option<Regex>;

/// The pattern that a compiled expression was made from, as `Regex::as_str`
/// gives it.
pub uninterp spec fn regex_pattern(re: Regex) -> Seq<char>;

/// What `Regex::find` gives for a text: the byte offsets of the start and the
/// end of the first match, or nothing where the text holds none.
pub uninterp spec fn regex_first_match(re: Regex, text: Seq<char>) -> Option<(usize, usize)>;

/// Calls `Regex::new`, which compiles a pattern or refuses it, and gives the
/// message of its error where it refuses; whether it compiles, and to what,
/// depends on the pattern alone.
#[verifier::external_body]
fn compile(pattern: &str) -> (r: Result<Regex, String>)
    ensures
        match r {
            Ok(re) => regex_compiled(pattern@) == Some(re),
            Err(_) => regex_compiled(pattern@) is None,
        },
{
    match Regex::new(pattern) {
        Ok(re) => Ok(re),
        Err(e) => Err(e.to_string()),
    }
}

/// Calls `Regex::as_str`, which gives the pattern that the expression was
/// compiled from.
#[verifier::external_body]
fn pattern_of(re: &Regex) -> (s: &str)
    ensures
        s@ == regex_pattern(*re),
{
    re.as_str()
}

/// Calls `Regex::find`, which searches the text for the first match, and takes
/// the two byte offsets from the match; the outcome depends on the expression
/// and the text alone.
#[verifier::external_body]
fn find_first(re: &Regex, text: &str) -> (r: Option<(usize, usize)>)
    ensures
        r == regex_first_match(*re, text@),
{
    re.find(text).map(|m| (m.start(), m.end()))
}

/// How many characters from the start of `text` take `bytes` bytes in UTF-8,
/// counted from `k` characters on; nothing where `bytes` bytes end inside a
/// character or past the text.
pub open spec fn chars_for_bytes(text: Seq<char>, bytes: nat, k: nat) -> Option<nat>
    decreases text.len() - k,
{
    if k > text.len() {
        None
    } else if utf8_len(text.take(k as int)) == bytes {
        Some(k)
    } else if k == text.len() || utf8_len(text.take(k as int)) > bytes {
        None
    } else {
        chars_for_bytes(text, bytes, k + 1)
    }
}

/// The message that says that a match for `pattern` was expected.
pub open spec fn no_match_message(pattern: Seq<char>) -> Seq<char> {
    "expected match for `"@ + pattern + "`"@
}

/// What matching a regular expression at the position of `s` gives, where
/// `found` holds the byte offsets of its first match in what is left of the
/// stream. A match that starts at the position is consumed, and the value is
/// its span. A match that starts later is no match: the stream stays, and the
/// error names the pattern.
pub open spec fn regex_outcome(
    pattern: Seq<char>,
    found: Option<(usize, usize)>,
    s: StreamView,
) -> Outcome<SpanView> {
    let failed = Outcome {
        result: Err(error_view(s.current_span(), no_match_message(pattern))),
        position: s.position,
    };
    match found {
        Some((start, end)) => if start == 0 {
            match chars_for_bytes(s.remaining(), end as nat, 0) {
                Some(k) => Outcome { result: Ok(s.span_of_next(k)), position: s.position + k },
                None => failed,
            }
        } else {
            failed
        },
        None => failed,
    }
}

/// How many characters from the start of `text` take `bytes` bytes.
fn count_chars(text: &[char], bytes: usize) -> (r: Option<usize>)
    ensures
        match r {
            Some(k) => chars_for_bytes(text@, bytes as nat, 0) == Some(k as nat) && k
                <= text@.len(),
            None => chars_for_bytes(text@, bytes as nat, 0) is None,
        },
{
    let mut k: usize = 0;
    let mut taken: usize = 0;
    while taken < bytes && k < text.len()
        invariant
            k <= text@.len(),
            taken == utf8_len(text@.take(k as int)),
            taken <= bytes,
            chars_for_bytes(text@, bytes as nat, 0) == chars_for_bytes(
                text@,
                bytes as nat,
                k as nat,
            ),
        decreases text@.len() - k,
    {
        let width = char_width(text[k]);
        proof {
            lemma_utf8_len_step(text@, k as int);
        }
        if width > bytes - taken {
            proof {
                assert(chars_for_bytes(text@, bytes as nat, (k + 1) as nat) is None);
            }
            return None;
        }
        taken = taken + width;
        k = k + 1;
    }
    if taken == bytes {
        Some(k)
    } else {
        None
    }
}

/// A value that a regular expression can be made of.
pub trait Pattern: Sized {
    /// The expression that the value gives; nothing where it gives none.
    spec fn regex_spec(self) -> Option<Regex>;

    /// The expression that the value gives.
    fn to_regex(self) -> (re: Regex)
        requires
            self.regex_spec() is Some,
        ensures
            Some(re) == self.regex_spec(),
    ;

    /// The expression that the value gives, or the message of the error of
    /// compiling it.
    fn try_to_regex(self) -> (r: Result<Regex, String>)
        ensures
            match r {
                Ok(re) => self.regex_spec() == Some(re),
                Err(_) => self.regex_spec() is None,
            },
    ;
}

impl Pattern for Regex {
    open spec fn regex_spec(self) -> Option<Regex> {
        Some(self)
    }

    fn to_regex(self) -> (re: Regex) {
        self
    }

    fn try_to_regex(self) -> (r: Result<Regex, String>) {
        Ok(self)
    }
}

impl<'a> Pattern for &'a str {
    open spec fn regex_spec(self) -> Option<Regex> {
        regex_compiled(self@)
    }

    fn to_regex(self) -> (re: Regex) {
        match compile(self) {
            Ok(re) => re,
            Err(_) => vstd::pervasive::unreached(),
        }
    }

    fn try_to_regex(self) -> (r: Result<Regex, String>) {
        compile(self)
    }
}

impl Pattern for String {
    open spec fn regex_spec(self) -> Option<Regex> {
        regex_compiled(self@)
    }

    fn to_regex(self) -> (re: Regex) {
        match compile(self.as_str()) {
            Ok(re) => re,
            Err(_) => vstd::pervasive::unreached(),
        }
    }

    fn try_to_regex(self) -> (r: Result<Regex, String>) {
        compile(self.as_str())
    }
}

/// The expression that `pattern` compiles to, or nothing where it is not
/// accepted as a regular expression.
pub fn regex_of(pattern: &str) -> (r: Option<Regex>)
    ensures
        r == regex_compiled(pattern@),
{
    match compile(pattern) {
        Ok(_) => Some(pattern.to_regex()),
        Err(_) => None,
    }
}

impl ParseStream {
    /// Matches the regular expression at the position. A match that starts
    /// later in the input does not count.
    pub fn parse_regex<P: Pattern>(&mut self, reg: P) -> (r: Result<Exact, Error>)
        requires
            reg.regex_spec() is Some,
        ensures
            final(self)@.source == old(self)@.source,
            outcome(r, final(self)@) == regex_outcome(
                regex_pattern(reg.regex_spec()->Some_0),
                regex_first_match(reg.regex_spec()->Some_0, old(self)@.remaining()),
                old(self)@,
            ),
    {
        let re = reg.to_regex();
        let found = find_first(&re, self.remaining());
        self.parse_match(pattern_of(&re), found)
    }

    /// Matches the regular expression `pattern` at the position, where the
    /// pattern is one; gives nothing, and leaves the stream, where it is none.
    pub fn try_parse_regex(&mut self, pattern: &str) -> (r: Option<Result<Exact, Error>>)
        ensures
            final(self)@.source == old(self)@.source,
            match r {
                Some(found) => regex_compiled(pattern@) matches Some(re) && outcome(
                    found,
                    final(self)@,
                ) == regex_outcome(
                    regex_pattern(re),
                    regex_first_match(re, old(self)@.remaining()),
                    old(self)@,
                ),
                None => regex_compiled(pattern@) is None && final(self)@ == old(self)@,
            },
    {
        match compile(pattern) {
            Ok(_) => Some(self.parse_regex(pattern)),
            Err(_) => None,
        }
    }

    /// The second step of matching a regular expression: given the pattern and
    /// the byte offsets `found` of its first match in what is left of the
    /// stream, consumes a match that starts at the position.
    pub fn parse_match(&mut self, pattern: &str, found: Option<(usize, usize)>) -> (r: Result<
        Exact,
        Error,
    >)
        ensures
            final(self)@.source == old(self)@.source,
            outcome(r, final(self)@) == regex_outcome(pattern@, found, old(self)@),
    {
        let matched: Option<usize> = match found {
            Some((start, end)) => if start == 0 {
                count_chars(self.source().text().slice(self.position()..).chars(), end)
            } else {
                None
            },
            None => None,
        };
        match matched {
            Some(k) => match self.consume(k) {
                Ok(span) => Ok(Exact::new(span)),
                Err(e) => Err(e),
            },
            None => {
                let mut message = String::from_str("expected match for `");
                message.append(pattern);
                message.append("`");
                Err(Error::new(self.current_span(), message.as_str()))
            },
        }
    }

    /// Whether the regular expression matches at the position. The stream
    /// stays where it is.
    pub fn peek_regex(&self, reg: Regex) -> (b: bool)
        ensures
            b == (regex_outcome(
                regex_pattern(reg),
                regex_first_match(reg, self@.remaining()),
                self@,
            ).result is Ok),
    {
        let mut fork = self.fork();
        fork.parse_regex(reg).is_ok()
    }
}

} // verus!
