use vstd::prelude::*;

verus! {

/// The reasons an attempted state transition is refused. Every refusal is
/// local to the one attempted operation and leaves the record unchanged.
#[derive(Clone, Copy, Debug, PartialEq, Eq, Structural)]
pub enum MsError {
    /// A threshold of zero, or one larger than the member count.
    InvalidThreshold,
    /// A member offered for initialization that is already present.
    DuplicateMember,
    /// A removal that would leave the multisig without members.
    CannotRemoveLastMember,
    /// The member already stands in the approved or the rejected ledger.
    AlreadyVoted,
    /// The member already stands in the cancelled ledger.
    AlreadyCancelled,
    /// The transaction is not in the source state the transition needs.
    InvalidStateTransition,
    /// The transaction was proposed at or before the multisig's change index.
    StaleTransaction,
    /// A monotonic counter would overflow.
    IntegerOverflow,
}

} // verus!
