use vstd::prelude::*;

verus! {

/// The faults a call can end with. Every mutating operation either commits
/// fully and returns a settlement, or returns one of these with the state
/// left exactly as it was.
#[derive(Clone, Copy, Debug, PartialEq, Eq, Structural)]
pub enum ChainError {
    /// The caller is not the recorded publisher, nor in the stakeholder set,
    /// nor the administrator, whichever policy the operation uses.
    Unauthorized,
    /// A positional stage removal named an index at or past the end.
    OutOfRange,
    /// The prepaid deposit does not cover the storage cost of the mutation.
    InsufficientDeposit,
    /// The storage accounting arithmetic left the numeric range.
    StorageCostOverflow,
    /// A score recomputation was asked of a product with no stages.
    EmptyStageSet,
}

} // verus!
