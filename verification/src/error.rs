//! Errors that the program's checks report.

use vstd::prelude::*;

verus! {

/// Why a check of the program refused its input.
#[derive(Clone, Copy, Debug, PartialEq, Eq, Structural)]
pub enum NCNProgramError {
    /// A Merkle proof does not lead from the leaf to the expected root.
    InvalidProof,
}

} // verus!
