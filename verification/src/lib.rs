//! Failure classification and propagation for a cryptographically signed,
//! Datalog-evaluated authorization token system.
//!
//! The crate fixes the error taxonomy every subsystem must honor — what a
//! parser, verifier, evaluation engine or block builder reports when it
//! fails — together with the validation and resolution logic that produces
//! those errors: block-index and symbol-table validation, signature parse
//! and verify outcomes, check aggregation, policy resolution and resource
//! limits. Every error value is immutable, structurally comparable, and
//! wraps lower-layer failures losslessly.

pub mod chain;
pub mod codec;
pub mod errors;
pub mod evaluation;
pub mod signature;
pub mod term;

pub use errors::Base64Error;
pub use errors::FailedBlockCheck;
pub use errors::FailedCheck;
pub use errors::FailedVerifierCheck;
pub use errors::Format;
pub use errors::InvalidBlockIndex;
pub use errors::Logic;
pub use errors::RunLimit;
pub use errors::Signature;
pub use errors::Token;
