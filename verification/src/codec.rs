//! Decoding the token's textual envelope and checking its format version.

use vstd::prelude::*;

use crate::errors::Base64Error;
use crate::errors::Format;
use crate::errors::Token;

use base64::Engine;

verus! {

/// The highest block format version this implementation understands.
pub const MAX_SCHEMA_VERSION: u32 = 1;

/// What URL-safe base64 decoding yields on this input: the decoded bytes,
/// or the decoding failure. A function of the input characters alone.
pub uninterp spec fn base64_url_decoded(s: Seq<char>) -> Result<Seq<u8>, Base64Error>;

/// Relies on base64's `Engine::decode` with the URL-safe alphabet and
/// canonical padding: the result is a function of the input characters
/// alone, and each `DecodeError` variant is carried over field for field.
#[verifier::external_body]
fn decode_base64_url(s: &str) -> (r: Result<Vec<u8>, Base64Error>)
    ensures
        match r {
            Ok(v) => base64_url_decoded(s@) == Ok::<Seq<u8>, Base64Error>(v@),
            Err(e) => base64_url_decoded(s@) == Err::<Seq<u8>, Base64Error>(e),
        },
{
    match base64::engine::general_purpose::URL_SAFE.decode(s) {
        Ok(v) => Ok(v),
        Err(base64::DecodeError::InvalidByte(offset, byte)) => {
            Err(Base64Error::InvalidByte(offset, byte))
        }
        Err(base64::DecodeError::InvalidLength(len)) => Err(Base64Error::InvalidLength(len)),
        Err(base64::DecodeError::InvalidLastSymbol { offset, symbol, symbol_value }) => {
            Err(Base64Error::InvalidLastSymbol(offset, symbol, symbol_value))
        }
        Err(base64::DecodeError::InvalidPadding) => Err(Base64Error::InvalidPadding),
    }
}

/// Decode a token's textual envelope from URL-safe base64. A decoding
/// failure is wrapped verbatim in `Token::Base64`.
pub fn from_base64(s: &str) -> (r: Result<Vec<u8>, Token>)
    ensures
        match r {
            Ok(v) => base64_url_decoded(s@) == Ok::<Seq<u8>, Base64Error>(v@),
            Err(t) => (t matches Token::Base64(e) && base64_url_decoded(s@) == Err::<
                Seq<u8>,
                Base64Error,
            >(e)),
        },
{
    match decode_base64_url(s) {
        Ok(v) => Ok(v),
        Err(e) => Err(Token::Base64(e)),
    }
}

/// Check a block's declared format version against the highest understood.
/// A mismatch is only reported when the version found is strictly higher,
/// and reports both so callers can tell "upgrade" from "corrupt".
pub fn check_format_version(maximum: u32, actual: u32) -> (r: Result<(), Format>)
    ensures
        r is Ok <==> actual <= maximum,
        r matches Err(e) ==> e == (Format::Version { maximum, actual }) && e.wf(),
{
    if actual > maximum {
        Err(Format::Version { maximum, actual })
    } else {
        Ok(())
    }
}

} // verus!
