//! Types of the grammar that are of use in most grammars.

pub mod decimal;
pub mod everything;
pub mod exact;
pub mod nothing;
pub mod numbers;
pub mod optional;
pub mod whitespace;

pub use decimal::{decimal_of_text, decimal_parse, decimal_shape, Decimal, DecimalView};
pub use everything::Everything;
pub use exact::{exact_match, Exact};
pub use nothing::Nothing;
pub use numbers::{
    bound_value, bounded_parse, digit_run, digits_value, magnitude, signed_parse, unsigned_parse,
    BoundedI64, NumberView, I128, I64, U128, U64,
};
pub use optional::Optional;
pub use whitespace::{whitespace_run, Whitespace};
