pub mod abi;
pub mod branding;
pub mod ef_type;
pub mod laws;
pub mod mem;
pub mod mock;
pub mod rt;
pub mod stack_alloc;
pub mod types;

use vstd::prelude::*;

verus! {

/// Error taxonomy of the boundary-mediation core.
#[derive(Debug, Eq, PartialEq, Structural, Clone, Copy)]
pub enum EFError {
    InternalError,
    AllocNoMem,
    AllocInvalidLayout,
    IDMismatch,
}

/// The outcome of a foreign call: a byte image of the result, or an error.
pub type EFResult<T> = Result<types::EFCopy<T>, EFError>;

} // verus!
