//! What goes wrong while a log is read.
use vstd::prelude::*;

pub mod decode;

verus! {

/// Why a part of a log could not be read.
#[derive(Debug, Clone, Copy, PartialEq, Eq, Structural)]
pub enum InternalError {
    /// The bytes are not what was expected; reading may go on elsewhere.
    Retry,
    /// The log ends too early.
    Eof,
}

pub type InternalResult<T> = Result<T, InternalError>;

} // verus!
