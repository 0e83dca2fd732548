//! Errors of the library's typed surface.

use vstd::prelude::*;

verus! {

/// Why a typed read or write, or a dispatched call, failed.
///
/// `ContractViolation` marks a bug in the embedding code, such as a call to
/// an entry point that was never registered: it is not meant to be handled,
/// only to end the call.
#[derive(Debug, Clone, Copy, PartialEq, Eq, Structural)]
pub enum ApiError {
    Transport,
    MissingArgument,
    Decode,
    Encode,
    ContractViolation,
}

} // verus!
