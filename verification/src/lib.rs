//! A scannerless parsing core: character-indexed text, shared sources, spans,
//! diagnostics and a forkable parse cursor, with the behaviour of every
//! operation stated as a contract and proved.

pub mod diagnostic;
pub mod equality;
pub mod indexed_string;
pub mod matching;
pub mod parsable;
pub mod parsing;
pub mod pattern;
pub mod source;
pub mod span;
pub mod text;

pub use diagnostic::{
    caret_at, carets, diagnostic_views, excerpt, merged_upto, rendered, rendered_upto, Diagnostic,
    DiagnosticLevel, DiagnosticView,
};
pub use equality::str_eq;
pub use indexed_string::{
    char_width, clamp_bounds, clamp_range, line_end, line_ranges, lines_of, utf8_len, CharRange,
    IndexedSlice, IndexedStr, IndexedString,
};
pub use matching::{
    any_caseless_match, any_str_match, any_value_match, caseless_match, one_of_message,
    quoted_list,
};
pub use parsing::{
    common_from, common_len, common_prefix, common_prefix_len, default_parse_value_spec,
    error_view, expect_text, expected_message, lemma_common_from, lemma_common_prefix,
    lemma_mismatch_precision, lemma_round_trip, mismatch, mismatch_at, outcome, parse,
    plain_result, result_view, shortage_message, stream_over, Error, Outcome, Parsable,
    ParseStream, Peekable, StreamView,
};
pub use pattern::{
    chars_for_bytes, regex_compiled, regex_first_match, regex_of, regex_outcome, regex_pattern,
    Pattern,
};
pub use source::{Source, SourceView};
pub use span::{
    blank_span, join_spec, lemma_join_blank_left, lemma_join_blank_right, lemma_join_commutes,
    lemma_join_different_sources, lemma_join_same_source, lemma_span_lines, line_col_at,
    line_window, span_at, span_views, touched_lines, LineCol, MultiSpan, Span, SpanJoinError,
    SpanView, Spanned,
};
