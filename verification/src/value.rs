//! The PHC parameter value type: a validated, borrowed text span.

use vstd::prelude::*;
use vstd::string::StringSliceAdditionalSpecFns;

use crate::b64::b64_decode_str;
use crate::b64::b64_decoded;
use crate::b64::b64_decoded_len;
use crate::decimal::decimal_of;
use crate::decimal::parse_decimal;
use crate::errors::B64Error;
use crate::errors::ParseError;

verus! {

/// Type used to represent decimal (i.e. integer) values.
pub type Decimal = u32;

/// Maximum length of a [`Value`]: 48 ASCII characters (i.e. 48 bytes).
pub const MAX_LENGTH: usize = 48;

/// A character permitted in a PHC parameter value: `[a-zA-Z0-9/+.-]`.
pub open spec fn char_allowed(c: char) -> bool {
    ('A' <= c && c <= 'Z') || ('a' <= c && c <= 'z') || ('0' <= c && c <= '9') || c == '/'
        || c == '+' || c == '.' || c == '-'
}

/// Every character of the text is permitted in a parameter value.
pub open spec fn all_chars_allowed(s: Seq<char>) -> bool {
    forall|i: int| 0 <= i < s.len() ==> char_allowed(#[trigger] s[i])
}

/// Position `i` holds the first disallowed character of `s`, in scan order.
pub open spec fn first_disallowed_at(s: Seq<char>, i: int) -> bool {
    &&& 0 <= i < s.len()
    &&& !char_allowed(s[i])
    &&& forall|j: int| 0 <= j < i ==> char_allowed(#[trigger] s[j])
}

/// Well-formedness of a parameter value's text: drawn from the allowed
/// alphabet and no longer than [`MAX_LENGTH`].
pub open spec fn valid_value(s: Seq<char>) -> bool {
    s.len() <= MAX_LENGTH && all_chars_allowed(s)
}

/// Text drawn from the allowed alphabet is ASCII, since every allowed
/// character's code point is below 128.
pub proof fn lemma_allowed_is_ascii(s: Seq<char>)
    requires
        all_chars_allowed(s),
    ensures
        vstd::utf8::is_ascii_chars(s),
{
    assert forall|i: int| 0 <= i < s.len() implies '\0' <= #[trigger] s[i] <= '\u{7f}' by {
        assert(char_allowed(s[i]));
    }
}

/// Is the given character allowed in a [`Value`]?
pub fn is_char_valid(c: char) -> (r: bool)
    ensures
        r == char_allowed(c),
{
    ('A' <= c && c <= 'Z') || ('a' <= c && c <= 'z') || ('0' <= c && c <= '9') || c == '/'
        || c == '+' || c == '.' || c == '-'
}

/// Are all of the given text's characters allowed in a [`Value`]?
///
/// On failure reports the first disallowed character in scan order.
pub fn assert_valid_value(input: &str) -> (r: Result<(), ParseError>)
    ensures
        match r {
            Ok(()) => all_chars_allowed(input@),
            Err(e) => {
                &&& !all_chars_allowed(input@)
                &&& exists|i: int|
                    first_disallowed_at(input@, i) && e == ParseError::InvalidChar(input@[i])
            },
        },
{
    let n = input.unicode_len();
    let mut i: usize = 0;
    while i < n
        invariant
            n == input@.len(),
            i <= n,
            forall|j: int| 0 <= j < i ==> char_allowed(#[trigger] input@[j]),
        decreases n - i,
    {
        let c = input.get_char(i);
        if !is_char_valid(c) {
            assert(first_disallowed_at(input@, i as int));
            return Err(ParseError::InvalidChar(c));
        }
        i += 1;
    }
    Ok(())
}

/// Algorithm parameter value string.
///
/// A borrowed span whose characters are all drawn from `[a-zA-Z0-9/+.-]`
/// and whose length does not exceed [`MAX_LENGTH`]; empty values are legal.
#[derive(Copy, Clone, Debug, Eq, Hash, PartialEq, PartialOrd, Ord)]
pub struct Value<'a>(&'a str);

impl<'a> View for Value<'a> {
    type V = Seq<char>;

    closed spec fn view(&self) -> Seq<char> {
        self.0@
    }
}

impl<'a> Value<'a> {
    #[verifier::type_invariant]
    spec fn inv(self) -> bool {
        valid_value(self.0@)
    }

    /// Maximum length of a [`Value`]: 48 ASCII characters (i.e. 48 bytes).
    pub fn max_len() -> (r: usize)
        ensures
            r == MAX_LENGTH,
    {
        MAX_LENGTH
    }

    /// Parse a [`Value`] from the provided `str`, validating it according to
    /// the PHC string format's rules.
    ///
    /// Succeeds if and only if the text is at most [`MAX_LENGTH`] bytes and
    /// drawn entirely from the allowed alphabet; the resulting [`Value`]
    /// borrows exactly the given span. The length rule is checked first: an
    /// overlong text is rejected as `TooLong` even if it also contains a
    /// disallowed character.
    pub fn new(input: &'a str) -> (r: Result<Self, ParseError>)
        ensures
            input.spec_bytes().len() > MAX_LENGTH ==> r == Err::<Value<'a>, ParseError>(
                ParseError::TooLong,
            ),
            input.spec_bytes().len() <= MAX_LENGTH ==> match r {
                Ok(v) => v@ == input@ && all_chars_allowed(input@),
                Err(e) => {
                    &&& !all_chars_allowed(input@)
                    &&& exists|i: int|
                        first_disallowed_at(input@, i) && e == ParseError::InvalidChar(input@[i])
                },
            },
            r matches Ok(v) ==> valid_value(v@),
    {
        let bytes: &[u8] = input.as_bytes();
        if bytes.len() > MAX_LENGTH {
            return Err(ParseError::TooLong);
        }
        assert_valid_value(input)?;
        proof {
            lemma_allowed_is_ascii(input@);
            vstd::utf8::is_ascii_chars_encode_utf8(input@);
        }
        Ok(Self(input))
    }
    /// Borrow this value as a `str`.
    ///
    /// Also witnesses well-formedness: every [`Value`]'s text satisfies
    /// [`valid_value`].
    pub fn as_str(&self) -> (r: &'a str)
        ensures
            r@ == self@,
            valid_value(self@),
    {
        proof {
            use_type_invariant(self);
        }
        self.0
    }

    /// Borrow this value as bytes: one byte per character, since the text
    /// is ASCII.
    pub fn as_bytes(&self) -> (r: &'a [u8])
        ensures
            r@.len() == self@.len(),
            forall|i: int| 0 <= i < self@.len() ==> r@[i] == self@[i] as u8,
            valid_value(self@),
    {
        proof {
            use_type_invariant(self);
            lemma_allowed_is_ascii(self.0@);
            vstd::utf8::is_ascii_chars_encode_utf8(self.0@);
        }
        self.0.as_bytes()
    }

    /// Get the length of this value in ASCII characters.
    pub fn len(&self) -> (r: usize)
        ensures
            r == self@.len(),
            r <= MAX_LENGTH,
    {
        proof {
            use_type_invariant(self);
            lemma_allowed_is_ascii(self.0@);
            vstd::utf8::is_ascii_chars_encode_utf8(self.0@);
        }
        let bytes: &[u8] = self.0.as_bytes();
        bytes.len()
    }

    /// Is this value empty?
    pub fn is_empty(&self) -> (r: bool)
        ensures
            r == (self@.len() == 0),
    {
        self.0.is_empty()
    }

    /// Attempt to decode a B64-encoded [`Value`], writing the decoded
    /// result into the provided buffer, and returning a slice of the
    /// buffer containing the decoded result on success.
    ///
    /// Construction guarantees only membership in the parameter-value
    /// alphabet, a superset of the transcoder's own; the transcoder may
    /// therefore still reject the text, and its failure kinds are passed
    /// through unchanged.
    pub fn b64_decode<'b>(&self, buf: &'b mut [u8]) -> (r: Result<&'b [u8], B64Error>)
        ensures
            match r {
                Ok(out) => {
                    &&& b64_decoded(self@) == Some(out@)
                    &&& out@.len() == b64_decoded_len(self@.len())
                    &&& out@.len() <= old(buf)@.len()
                },
                Err(B64Error::InvalidLength) => b64_decoded_len(self@.len()) > old(buf)@.len(),
                Err(B64Error::InvalidEncoding) => {
                    &&& b64_decoded(self@) is None
                    &&& b64_decoded_len(self@.len()) <= old(buf)@.len()
                },
            },
            b64_decoded(self@) is Some && b64_decoded_len(self@.len()) <= old(buf)@.len()
                ==> r is Ok,
    {
        proof {
            use_type_invariant(self);
            lemma_allowed_is_ascii(self.0@);
        }
        b64_decode_str(self.0, buf)
    }

    /// Attempt to parse this [`Value`] as a PHC-encoded decimal
    /// (i.e. integer).
    ///
    /// Succeeds exactly on non-empty digit-only text with no leading zero
    /// (the single character `0` excepted) denoting a number within the
    /// unsigned 32-bit range, and returns that number. Negative decimals
    /// are unsupported: a leading `-` is reported as an invalid character.
    /// A number beyond the 32-bit range is reported as `TooLong`, reusing
    /// the length error kind.
    pub fn decimal(&self) -> (r: Result<Decimal, ParseError>)
        ensures
            r == decimal_of(self@),
    {
        parse_decimal(self.0)
    }

    /// Does this value parse successfully as a decimal?
    ///
    /// True if and only if [`Value::decimal`] returns success; each call
    /// re-parses the same borrowed text.
    pub fn is_decimal(&self) -> (r: bool)
        ensures
            r == (decimal_of(self@) is Ok),
    {
        self.decimal().is_ok()
    }
}

} // verus!
