//! Bridge to the external B64 binary transcoder.
//!
//! The PHC string format encodes binary parameters in B64: standard Base64
//! without padding. Decoding is delegated verbatim to the transcoder; this
//! module only names its outcome so that callers' contracts can speak of it.

use vstd::prelude::*;

use base64ct::Base64Unpadded;
use base64ct::Encoding;

use crate::errors::B64Error;

verus! {

/// What the B64 transcoder decodes the given text to: the decoded bytes,
/// or nothing when the text is not valid unpadded Base64. The outcome is a
/// function of the text alone.
pub uninterp spec fn b64_decoded(s: Seq<char>) -> Option<Seq<u8>>;

/// Number of bytes that decoding a B64 text of length `n` yields: three
/// bytes per four characters, and the bytes a trailing partial block
/// determines.
pub open spec fn b64_decoded_len(n: nat) -> nat {
    3 * (n / 4) + (3 * (n % 4)) / 4
}

/// Relies on `base64ct::Base64Unpadded::decode`: decodes unpadded standard
/// Base64 from `src` into `dst` and returns the prefix of `dst` actually
/// written. Its result depends on the text alone. A destination buffer
/// smaller than the decoded length that the text's length determines is
/// reported as `InvalidLength`, checked before anything else; an invalid
/// symbol, an invalid text length or invalid trailing bits are reported as
/// `InvalidEncoding`.
#[verifier::external_body]
pub(crate) fn b64_decode_str<'b>(src: &str, dst: &'b mut [u8]) -> (r: Result<&'b [u8], B64Error>)
    requires
        src.is_ascii(),
    ensures
        match r {
            Ok(out) => {
                &&& b64_decoded(src@) == Some(out@)
                &&& out@.len() == b64_decoded_len(src@.len())
                &&& out@.len() <= old(dst)@.len()
            },
            Err(B64Error::InvalidLength) => b64_decoded_len(src@.len()) > old(dst)@.len(),
            Err(B64Error::InvalidEncoding) => {
                &&& b64_decoded(src@) is None
                &&& b64_decoded_len(src@.len()) <= old(dst)@.len()
            },
        },
        b64_decoded(src@) is Some && b64_decoded_len(src@.len()) <= old(dst)@.len() ==> r is Ok,
{
    match Base64Unpadded::decode(src, dst) {
        Ok(out) => Ok(out),
        Err(base64ct::Error::InvalidEncoding) => Err(B64Error::InvalidEncoding),
        Err(base64ct::Error::InvalidLength) => Err(B64Error::InvalidLength),
    }
}

} // verus!
