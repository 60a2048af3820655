//! Typed values extracted from an evaluation result, and the conversion
//! failures they can raise. A conversion to the wrong shape yields
//! `ConversionError`; its message is diagnostic only.

use vstd::prelude::*;

use crate::errors::Token;

verus! {

/// A typed value of the fact base, as handed back by an evaluation query.
#[derive(Clone, Debug, PartialEq, Eq)]
pub enum Term {
    /// A signed integer value.
    Integer(i64),
    /// A text value.
    Text(String),
    /// A boolean value.
    Boolean(bool),
}

/// Extract an integer from a term. Any other shape yields
/// `ConversionError`; the message carried is diagnostic only.
pub fn term_to_integer(t: &Term) -> (r: Result<i64, Token>)
    ensures
        t matches Term::Integer(v) ==> r == Ok::<i64, Token>(*v),
        !(t is Integer) ==> (r matches Err(e) && e matches Token::ConversionError(_)),
{
    match t {
        Term::Integer(v) => Ok(*v),
        _ => Err(Token::ConversionError(String::from_str("expected an integer term"))),
    }
}

/// Extract a boolean from a term. Any other shape yields
/// `ConversionError`; the message carried is diagnostic only.
pub fn term_to_boolean(t: &Term) -> (r: Result<bool, Token>)
    ensures
        t matches Term::Boolean(v) ==> r == Ok::<bool, Token>(*v),
        !(t is Boolean) ==> (r matches Err(e) && e matches Token::ConversionError(_)),
{
    match t {
        Term::Boolean(v) => Ok(*v),
        _ => Err(Token::ConversionError(String::from_str("expected a boolean term"))),
    }
}

} // verus!
