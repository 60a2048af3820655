//! The failure taxonomy: every fallible operation of the token system
//! returns exactly one [`Token`] error, which wraps the lower layers'
//! failures without discarding any payload.

use vstd::prelude::*;

verus! {

/// The top-level, terminal failure type returned by every public operation
/// (decoding, block appending, verification, authorization).
#[derive(Clone, Debug, PartialEq, Eq)]
pub enum Token {
    /// Reserved for invariant violations that should be unreachable in
    /// correct code; never deliberately triggered by user input.
    InternalError,
    /// A failure while deserializing or cryptographically verifying the token.
    Format(Format),
    /// The authority block must occupy index 0; carries the index found.
    InvalidAuthorityIndex(u32),
    /// A block's declared index does not match its position in the chain.
    InvalidBlockIndex(InvalidBlockIndex),
    /// Two or more blocks declare the same symbol identifier.
    SymbolTableOverlap,
    /// The merged symbol table lacks one of the mandatory default namespaces.
    MissingSymbols,
    /// A block append was attempted on a sealed token.
    Sealed,
    /// A failure of the Datalog evaluation stage.
    FailedLogic(Logic),
    /// A Datalog parsing failure; a flat marker, deliberately without payload.
    ParseError,
    /// The evaluation engine was stopped by its resource governor.
    RunLimit(RunLimit),
    /// A typed value extracted from the evaluation result could not be
    /// converted to the caller-requested shape; the message is diagnostic only.
    ConversionError(String),
    /// The token's textual envelope could not be decoded from base64.
    Base64(Base64Error),
}

/// Payload of [`Token::InvalidBlockIndex`]: the position the block occupies
/// and the index it declares.
#[derive(Clone, Debug, PartialEq, Eq)]
pub struct InvalidBlockIndex {
    pub expected: u32,
    pub found: u32,
}

/// Errors related to the token's serialization format or cryptographic
/// signature: everything that can go wrong turning raw bytes into a
/// structurally valid, signed block chain, before any evaluation occurs.
#[derive(Clone, Debug, PartialEq, Eq)]
pub enum Format {
    /// A signature failed parsing or verification.
    Signature(Signature),
    /// The signature of a sealed token failed verification.
    SealedSignature,
    /// The chain provides no intermediate public keys where at least one
    /// is required.
    EmptyKeys,
    /// The root public key that signed the token is not in the trusted set:
    /// a trust-boundary failure, distinct from any parse failure.
    UnknownPublicKey,
    /// The wrapper envelope could not be deserialized.
    DeserializationError(String),
    /// The wrapper envelope could not be serialized.
    SerializationError(String),
    /// An individual block could not be deserialized.
    BlockDeserializationError(String),
    /// An individual block could not be serialized.
    BlockSerializationError(String),
    /// The block's format version exceeds the highest version understood;
    /// carries both so callers can tell "upgrade" from "corrupt".
    Version { maximum: u32, actual: u32 },
}

/// Signature errors; a leaf of the taxonomy.
#[derive(Clone, Debug, PartialEq, Eq)]
pub enum Signature {
    /// The signature's byte layout could not be parsed into its elements:
    /// the token is malformed or corrupt.
    InvalidFormat,
    /// The layout parsed but the cryptographic check failed: the token is
    /// syntactically valid but untrusted or tampered with.
    InvalidSignature,
}

/// Errors of the Datalog evaluation stage.
#[derive(Clone, Debug, PartialEq, Eq)]
pub enum Logic {
    /// A fact of the authority block did not carry the authority tag.
    InvalidAuthorityFact(String),
    /// A fact supplied by the verifier did not carry the ambient tag.
    InvalidAmbientFact(String),
    /// A fact of an ordinary block carried a reserved tag.
    InvalidBlockFact(u32, String),
    /// A rule of an ordinary block generates facts carrying a reserved tag,
    /// or has head variables not bound by its body.
    InvalidBlockRule(u32, String),
    /// The checks that failed validation, in declared order; never empty.
    FailedChecks(Vec<FailedCheck>),
    /// Authorization was started on a verifier that already holds a token.
    VerifierNotEmpty,
    /// The policy at this position explicitly denied the request.
    Deny(usize),
    /// Evaluation completed but no policy matched.
    NoMatchingPolicy,
}

/// A single named check that failed evaluation, tagged with its origin.
#[derive(Clone, Debug, PartialEq, Eq)]
pub enum FailedCheck {
    /// The check was declared by a block of the token.
    Block(FailedBlockCheck),
    /// The check was supplied by the verifier.
    Verifier(FailedVerifierCheck),
}

impl FailedCheck {
    /// The zero-based position of the failed check within its origin's
    /// declared list.
    pub open spec fn spec_check_id(self) -> u32 {
        match self {
            FailedCheck::Block(c) => c.check_id,
            FailedCheck::Verifier(c) => c.check_id,
        }
    }
}

/// A failed check declared by a block: the zero-based position of the block
/// and of the check within it at evaluation time.
#[derive(Clone, Debug, PartialEq, Eq)]
pub struct FailedBlockCheck {
    pub block_id: u32,
    pub check_id: u32,
    /// pretty print of the rule that failed
    pub rule: String,
}

/// A failed check supplied by the verifier: the zero-based position of the
/// check at evaluation time.
#[derive(Clone, Debug, PartialEq, Eq)]
pub struct FailedVerifierCheck {
    pub check_id: u32,
    /// pretty print of the rule that failed
    pub rule: String,
}

/// Resource-limit errors: the engine was stopped before it could determine
/// the logical outcome. Policy-limit markers only; a leaf with no payload.
#[derive(Clone, Debug, PartialEq, Eq)]
pub enum RunLimit {
    /// The generated-fact-count ceiling was reached.
    TooManyFacts,
    /// The iteration ceiling was reached: the fixpoint did not converge
    /// within budget.
    TooManyIterations,
    /// The wall-clock ceiling was reached.
    Timeout,
}

/// A base64 decoding failure of the token's textual envelope, carried
/// verbatim: the offending offset and byte where the input has one.
#[derive(Clone, Debug, PartialEq, Eq)]
pub enum Base64Error {
    /// An invalid byte was found in the input, at this offset.
    InvalidByte(usize, u8),
    /// The input's length in base64 symbols is invalid.
    InvalidLength(usize),
    /// The last symbol, at this offset, encodes trailing bits that would be
    /// discarded; the third field is its decoded value.
    InvalidLastSymbol(usize, u8, u8),
    /// The padding is absent, misplaced, or not canonical.
    InvalidPadding,
}

impl Format {
    /// Structural invariant: a version mismatch is only reported when the
    /// version found exceeds the maximum understood.
    pub open spec fn wf(self) -> bool {
        match self {
            Format::Version { maximum, actual } => actual > maximum,
            _ => true,
        }
    }
}

impl Logic {
    /// Structural invariant: a failed-checks report is never empty.
    pub open spec fn wf(self) -> bool {
        match self {
            Logic::FailedChecks(checks) => checks@.len() > 0,
            _ => true,
        }
    }
}

impl Token {
    /// Structural invariant: every wrapped child error is well formed.
    pub open spec fn wf(self) -> bool {
        match self {
            Token::Format(e) => e.wf(),
            Token::FailedLogic(e) => e.wf(),
            _ => true,
        }
    }

    /// Recover the format error wrapped by `Token::Format`, if this is one.
    pub fn format_source(self) -> (r: Option<Format>)
        ensures
            r == (match self {
                Token::Format(e) => Some(e),
                _ => None::<Format>,
            }),
    {
        match self {
            Token::Format(e) => Some(e),
            _ => None,
        }
    }

    /// Recover the logic error wrapped by `Token::FailedLogic`, if this is one.
    pub fn logic_source(self) -> (r: Option<Logic>)
        ensures
            r == (match self {
                Token::FailedLogic(e) => Some(e),
                _ => None::<Logic>,
            }),
    {
        match self {
            Token::FailedLogic(e) => Some(e),
            _ => None,
        }
    }
}

/// What converting a format error into a token error yields.
pub open spec fn token_of_format(e: Format) -> Token {
    Token::Format(e)
}

/// What converting a logic error into a token error yields.
pub open spec fn token_of_logic(e: Logic) -> Token {
    Token::FailedLogic(e)
}

/// What converting a base64 decoding error into a token error yields.
pub open spec fn token_of_base64(e: Base64Error) -> Token {
    Token::Base64(e)
}

impl From<Format> for Token {
    fn from(e: Format) -> (r: Token) {
        Token::Format(e)
    }
}

impl vstd::std_specs::convert::FromSpecImpl<Format> for Token {
    open spec fn obeys_from_spec() -> bool {
        true
    }

    open spec fn from_spec(e: Format) -> Token {
        token_of_format(e)
    }
}

impl From<Logic> for Token {
    fn from(e: Logic) -> (r: Token) {
        Token::FailedLogic(e)
    }
}

impl vstd::std_specs::convert::FromSpecImpl<Logic> for Token {
    open spec fn obeys_from_spec() -> bool {
        true
    }

    open spec fn from_spec(e: Logic) -> Token {
        token_of_logic(e)
    }
}

impl From<Base64Error> for Token {
    fn from(e: Base64Error) -> (r: Token) {
        Token::Base64(e)
    }
}

impl vstd::std_specs::convert::FromSpecImpl<Base64Error> for Token {
    open spec fn obeys_from_spec() -> bool {
        true
    }

    open spec fn from_spec(e: Base64Error) -> Token {
        token_of_base64(e)
    }
}

/// Lossless wrap round-trip: a format error converted into a token error
/// and matched back out equals the original.
pub proof fn lemma_format_round_trip(e: Format)
    ensures
        token_of_format(e) matches Token::Format(inner) && inner == e,
{
}

/// Lossless wrap round-trip: a logic error converted into a token error
/// and matched back out equals the original.
pub proof fn lemma_logic_round_trip(e: Logic)
    ensures
        token_of_logic(e) matches Token::FailedLogic(inner) && inner == e,
{
}

/// Lossless wrap round-trip: a base64 decoding error converted into a token
/// error and matched back out equals the original.
pub proof fn lemma_base64_round_trip(e: Base64Error)
    ensures
        token_of_base64(e) matches Token::Base64(inner) && inner == e,
{
}

/// Wrapping preserves well-formedness: the token error wrapping a well formed
/// child is itself well formed.
pub proof fn lemma_wrapping_preserves_wf(e: Format, l: Logic)
    ensures
        e.wf() ==> token_of_format(e).wf(),
        l.wf() ==> token_of_logic(l).wf(),
{
}

} // verus!
