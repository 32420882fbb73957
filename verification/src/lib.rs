//! Derivation of content-addressing keys and canonically encoded content
//! values for beacon-chain light-client data: bootstraps, finality and
//! optimistic updates, update ranges, and historical summaries with proof.

use vstd::prelude::*;

pub mod derivation;
pub mod hex;
pub mod json;
pub mod keys;
pub mod numbers;
pub mod slots;
pub mod values;

verus! {

/// Errors surfaced by the library. Every failure is fatal to a fixture run:
/// there is no local recovery anywhere in the core.
#[derive(Clone, Copy, Debug, PartialEq, Eq, Structural)]
pub enum FixtureError {
    /// The endpoint was unreachable, returned a non-success status, or
    /// rejected the credentials.
    Transport,
    /// A payload did not match the expected shape for its query kind.
    Decode,
    /// A structural invariant did not hold, e.g. a historical-summaries
    /// proof whose length is not five.
    InvariantViolation,
    /// A required precondition of the run was missing, e.g. the target
    /// fixture path does not exist.
    Precondition,
}

} // verus!
