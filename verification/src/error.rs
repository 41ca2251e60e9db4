//! The ways in which a patch operation can fail.

use vstd::prelude::*;

verus! {

/// Why a patch operation did not take effect. Whenever one of these is
/// returned, the cell is as it was before the call.
#[derive(Clone, Copy, Debug, PartialEq, Eq, Structural)]
pub enum PatchError {
    /// The dynamic library could not be opened.
    LibraryLoadFailure,
    /// The export table ended before an entry with the cell's path was seen.
    SymbolNotFound,
    /// An entry with the cell's path was seen, but its signature text differs.
    SignatureMismatch,
    /// An earlier holder of the cell's lock panicked while holding it.
    LockPoisoned,
    /// The lock was held by someone else and the caller asked not to wait.
    LockBusy,
}

} // verus!
