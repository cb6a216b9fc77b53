//! Validation and interpretation of a single PHC string format parameter
//! value: a bounded ASCII token drawn from the alphabet `[a-zA-Z0-9/+.-]`,
//! optionally readable as an unsigned decimal integer or as B64-encoded
//! binary data.

mod b64;
mod decimal;
mod errors;
mod value;

pub use b64::b64_decoded;
pub use b64::b64_decoded_len;
pub use decimal::all_digits;
pub use decimal::dec_value;
pub use decimal::decimal_of;
pub use decimal::digit_value;
pub use decimal::first_nondigit_at;
pub use decimal::is_digit;
pub use decimal::lemma_dec_value_nonneg;
pub use decimal::lemma_dec_value_prefix_le;
pub use decimal::lemma_decimal_accepts_canonical;
pub use errors::B64Error;
pub use errors::ParseError;
pub use value::Decimal;
pub use value::MAX_LENGTH;
pub use value::Value;
pub use value::all_chars_allowed;
pub use value::assert_valid_value;
pub use value::char_allowed;
pub use value::first_disallowed_at;
pub use value::is_char_valid;
pub use value::lemma_allowed_is_ascii;
pub use value::valid_value;
