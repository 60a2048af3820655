//! The shape of signature failures. The cryptography itself is an external
//! collaborator; this module fixes the two outcomes it must report and keeps
//! them apart: a byte layout that cannot be parsed into the signature's
//! elements (`InvalidFormat`, a corrupt token) and a layout that parses but
//! whose cryptographic check fails (`InvalidSignature`, a tampered token).
//! The byte layout is modeled as a fixed-length signature.

use vstd::prelude::*;

use crate::errors::Format;
use crate::errors::Signature;
use crate::errors::Token;

verus! {

/// The byte length of a well-formed signature.
pub const SIGNATURE_LENGTH: usize = 64;

/// A signature whose byte layout parsed: exactly `SIGNATURE_LENGTH` bytes.
#[derive(Clone, Debug, PartialEq, Eq)]
pub struct ParsedSignature {
    bytes: Vec<u8>,
}

impl View for ParsedSignature {
    type V = Seq<u8>;

    closed spec fn view(&self) -> Seq<u8> {
        self.bytes@
    }
}

impl ParsedSignature {
    /// A parsed signature always holds exactly `SIGNATURE_LENGTH` bytes.
    pub open spec fn wf(self) -> bool {
        self@.len() == SIGNATURE_LENGTH
    }

    /// The signature's bytes.
    pub fn as_bytes(&self) -> (r: &Vec<u8>)
        ensures
            r@ == self@,
    {
        &self.bytes
    }
}

/// Compare two byte strings for equality of contents.
fn bytes_equal(a: &[u8], b: &[u8]) -> (r: bool)
    ensures
        r == (a@ == b@),
{
    if a.len() != b.len() {
        return false;
    }
    let mut i: usize = 0;
    while i < a.len()
        invariant
            0 <= i <= a@.len(),
            a@.len() == b@.len(),
            forall|k: int| 0 <= k < i ==> a@[k] == b@[k],
        decreases a@.len() - i,
    {
        if a[i] != b[i] {
            return false;
        }
        i = i + 1;
    }
    proof {
        assert(a@ =~= b@);
    }
    true
}

/// Parse a signature's byte layout into its elements. Every malformed byte
/// sequence — here, any whose length is not `SIGNATURE_LENGTH` — yields
/// `Format(Signature(InvalidFormat))`, never `InvalidSignature`.
pub fn parse_signature(bytes: &Vec<u8>) -> (r: Result<ParsedSignature, Token>)
    ensures
        bytes@.len() == SIGNATURE_LENGTH ==> (r matches Ok(s) && s@ == bytes@ && s.wf()),
        bytes@.len() != SIGNATURE_LENGTH ==> r == Err::<ParsedSignature, Token>(
            Token::Format(Format::Signature(Signature::InvalidFormat)),
        ),
{
    if bytes.len() == SIGNATURE_LENGTH {
        Ok(ParsedSignature { bytes: bytes.clone() })
    } else {
        Err(Token::Format(Format::Signature(Signature::InvalidFormat)))
    }
}

/// Verify a well-formed signature against the bytes the signing scheme
/// expects for this chain. Every non-matching signature yields
/// `Format(Signature(InvalidSignature))`, never `InvalidFormat`: the two
/// outcomes are never conflated.
pub fn verify_signature(sig: &ParsedSignature, expected: &Vec<u8>) -> (r: Result<(), Token>)
    ensures
        r is Ok <==> sig@ == expected@,
        sig@ != expected@ ==> r == Err::<(), Token>(
            Token::Format(Format::Signature(Signature::InvalidSignature)),
        ),
{
    if bytes_equal(sig.as_bytes().as_slice(), expected.as_slice()) {
        Ok(())
    } else {
        Err(Token::Format(Format::Signature(Signature::InvalidSignature)))
    }
}

/// Whether some key in the list has exactly these bytes.
pub open spec fn key_known(trusted: Seq<Vec<u8>>, key: Seq<u8>) -> bool {
    exists|i: int| 0 <= i < trusted.len() && (#[trigger] trusted[i])@ == key
}

/// Check that a chain carries at least one intermediate public key, as the
/// protocol requires; a chain with none is rejected before any trust
/// decision is made.
pub fn check_intermediate_keys(key_count: usize) -> (r: Result<(), Token>)
    ensures
        r is Ok <==> key_count > 0,
        key_count == 0 ==> r == Err::<(), Token>(Token::Format(Format::EmptyKeys)),
{
    if key_count == 0 {
        Err(Token::Format(Format::EmptyKeys))
    } else {
        Ok(())
    }
}

/// Check the root public key that signed the token against the caller's
/// trusted set. An unknown root is a trust-boundary failure with its own
/// variant, never conflated with a parse failure.
pub fn check_root_key(trusted: &Vec<Vec<u8>>, root: &Vec<u8>) -> (r: Result<(), Token>)
    ensures
        r is Ok <==> key_known(trusted@, root@),
        !key_known(trusted@, root@) ==> r == Err::<(), Token>(
            Token::Format(Format::UnknownPublicKey),
        ),
{
    let mut i: usize = 0;
    while i < trusted.len()
        invariant
            0 <= i <= trusted@.len(),
            forall|k: int| 0 <= k < i ==> (#[trigger] trusted@[k])@ != root@,
        decreases trusted@.len() - i,
    {
        if bytes_equal(trusted[i].as_slice(), root.as_slice()) {
            return Ok(());
        }
        i = i + 1;
    }
    Err(Token::Format(Format::UnknownPublicKey))
}

/// Verify the single aggregated signature of a sealed token; a mismatch is
/// reported as `SealedSignature`, apart from the chain's signature errors.
pub fn verify_sealed_signature(sig: &ParsedSignature, expected: &Vec<u8>) -> (r: Result<(), Token>)
    ensures
        r is Ok <==> sig@ == expected@,
        sig@ != expected@ ==> r == Err::<(), Token>(Token::Format(Format::SealedSignature)),
{
    if bytes_equal(sig.as_bytes().as_slice(), expected.as_slice()) {
        Ok(())
    } else {
        Err(Token::Format(Format::SealedSignature))
    }
}

} // verus!
