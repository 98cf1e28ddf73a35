//! The error type of identifier parsing.

use vstd::prelude::*;

verus! {

/// Why a string is not a valid identifier.
///
/// The checks run in the order of the variants, and the first one that fails decides.
#[derive(Clone, Copy, Debug, PartialEq, Eq, Structural)]
pub enum Error {
    /// The string is empty or does not start with a sigil of the identifier's kind.
    MissingSigil,
    /// No colon follows the sigil.
    MissingDelimiter,
    /// The localpart is empty, or the colon lies beyond byte 255.
    InvalidLocalPart,
    /// The text after the colon is not a valid server name.
    InvalidServerName,
}

} // verus!
