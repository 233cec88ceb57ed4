//! Errors of the library.

use crate::numeric::IntProblem;
use vstd::prelude::*;

verus! {

/// What went wrong in a storage operation.
#[derive(Clone, Debug, PartialEq)]
pub enum StorageFailure {
    /// The lock guarding a shared store was poisoned; the text describes it.
    Lock(String),
    /// A deletion record of a numerically keyed entity carried an identifier
    /// that does not parse as an integer of the key's type; why it does not.
    InvalidNumericId(IntProblem),
}

/// Errors of the library.
#[derive(Clone, Debug, PartialEq)]
pub enum ZenMoneyError {
    /// A storage backend operation failed.
    Storage(StorageFailure),
}

} // verus!
