use vstd::prelude::*;

use crate::error::MsError;
use crate::key::{insert_sorted, lemma_sorted_remove, search, sorted_strict, Pubkey};
use crate::multisig::{Ms, MsView};

verus! {

/// Serialized footprint of a transaction record before its vote ledgers: the
/// scalar fields, with 13 bytes reserved for the status. Each vote ledger
/// adds a 4-byte length prefix plus 32 bytes per key.
pub const MINIMUM_SIZE: usize = 32 + 32 + 4 + 4 + 1 + 13 + 1 + 1 + 1;

/// The lifecycle status of a multisig transaction. `Draft` is initial;
/// `Executed`, `Rejected` and `Cancelled` are terminal.
#[derive(Clone, Copy, Debug, PartialEq, Eq, Structural)]
pub enum MsTransactionStatus {
    /// Being assembled: instructions may still be attached.
    Draft,
    /// Live and collecting votes.
    Active,
    /// Approved by at least `threshold` members and pending execution.
    ExecuteReady,
    /// Every attached instruction has completed.
    Executed,
    /// Turned down by caller-layer policy.
    Rejected,
    /// Withdrawn by caller-layer policy.
    Cancelled,
}

/// The state record for one proposed transaction: its identity, the
/// authority it executes under, its lifecycle status, its vote ledgers, and
/// the sequential-execution bookkeeping.
pub struct MsTransaction {
    /// The member that proposed the transaction.
    pub creator: Pubkey,
    /// The multisig the transaction belongs to.
    pub ms: Pubkey,
    /// Identity within the owning multisig; assigned at proposal, never
    /// reused.
    pub transaction_index: u32,
    /// Which authority identity the payload executes under.
    pub authority_index: u32,
    /// Derivation bump of that authority identity.
    pub authority_bump: u8,
    /// Lifecycle status.
    pub status: MsTransactionStatus,
    /// Count of attached instructions; also the next attach position.
    pub instruction_index: u8,
    /// Derivation bump of the transaction's own storage address.
    pub bump: u8,
    /// Keys that approved, strictly sorted.
    pub approved: Vec<Pubkey>,
    /// Keys that rejected, strictly sorted.
    pub rejected: Vec<Pubkey>,
    /// Keys that cancelled once the transaction was execute-ready, strictly
    /// sorted.
    pub cancelled: Vec<Pubkey>,
    /// How many attached instructions have completed execution.
    pub executed_index: u8,
}

/// The mathematical model of a transaction record.
pub ghost struct TxView {
    pub creator: Pubkey,
    pub ms: Pubkey,
    pub transaction_index: u32,
    pub authority_index: u32,
    pub authority_bump: u8,
    pub status: MsTransactionStatus,
    pub instruction_index: u8,
    pub bump: u8,
    pub approved: Seq<Pubkey>,
    pub rejected: Seq<Pubkey>,
    pub cancelled: Seq<Pubkey>,
    pub executed_index: u8,
}

impl View for MsTransaction {
    type V = TxView;

    open spec fn view(&self) -> TxView {
        TxView {
            creator: self.creator,
            ms: self.ms,
            transaction_index: self.transaction_index,
            authority_index: self.authority_index,
            authority_bump: self.authority_bump,
            status: self.status,
            instruction_index: self.instruction_index,
            bump: self.bump,
            approved: self.approved@,
            rejected: self.rejected@,
            cancelled: self.cancelled@,
            executed_index: self.executed_index,
        }
    }
}

impl TxView {
    /// Well-formedness: each vote ledger is strictly sorted, no member
    /// stands in both the approved and the rejected ledger, and execution
    /// bookkeeping never runs past the attached instructions.
    pub open spec fn wf(self) -> bool {
        &&& sorted_strict(self.approved)
        &&& sorted_strict(self.rejected)
        &&& sorted_strict(self.cancelled)
        &&& forall|m: Pubkey| !(#[trigger] self.approved.contains(m) && self.rejected.contains(m))
        &&& self.executed_index <= self.instruction_index
    }
}

/// A transaction is stale when it was proposed at or before the index the
/// multisig had reached at its last membership or threshold change: votes
/// collected under obsolete membership must not satisfy the threshold.
pub open spec fn spec_is_stale(t: TxView, m: MsView) -> bool {
    t.transaction_index <= m.ms_change_index
}

/// Vote mutual exclusion: a member never stands in both the approved and the
/// rejected ledger of a well-formed transaction.
pub proof fn lemma_vote_mutual_exclusion(t: TxView, member: Pubkey)
    requires
        t.wf(),
    ensures
        !(t.approved.contains(member) && t.rejected.contains(member)),
{
}

/// A membership or threshold change invalidates every transaction proposed
/// up to the index the multisig had reached: after the change index advances
/// to the current transaction index, each of those transactions is stale,
/// however many approvals it had collected.
pub proof fn lemma_membership_change_invalidates(before: MsView, after: MsView, t: TxView)
    requires
        t.transaction_index <= before.transaction_index,
        after.ms_change_index == before.transaction_index,
    ensures
        spec_is_stale(t, after),
{
}

impl MsTransaction {
    pub open spec fn wf(self) -> bool {
        self@.wf()
    }

    /// Initializes the record in `Draft` with empty vote ledgers and no
    /// attached or executed instructions.
    pub fn init(
        &mut self,
        creator: Pubkey,
        multisig: Pubkey,
        transaction_index: u32,
        bump: u8,
        authority_index: u32,
        authority_bump: u8,
    ) -> (r: Result<(), MsError>)
        ensures
            r is Ok,
            final(self).wf(),
            final(self)@ == (TxView {
                creator,
                ms: multisig,
                transaction_index,
                authority_index,
                authority_bump,
                status: MsTransactionStatus::Draft,
                instruction_index: 0u8,
                bump,
                approved: Seq::<Pubkey>::empty(),
                rejected: Seq::<Pubkey>::empty(),
                cancelled: Seq::<Pubkey>::empty(),
                executed_index: 0u8,
            }),
    {
        self.creator = creator;
        self.ms = multisig;
        self.transaction_index = transaction_index;
        self.authority_index = authority_index;
        self.authority_bump = authority_bump;
        self.status = MsTransactionStatus::Draft;
        self.instruction_index = 0;
        self.approved = Vec::new();
        self.rejected = Vec::new();
        self.cancelled = Vec::new();
        self.bump = bump;
        self.executed_index = 0;
        proof {
            assert(self.approved@ =~= Seq::<Pubkey>::empty());
            assert(self.rejected@ =~= Seq::<Pubkey>::empty());
            assert(self.cancelled@ =~= Seq::<Pubkey>::empty());
        }
        Ok(())
    }

    /// Hands out the attach position for one more instruction while the
    /// transaction is still a draft, and counts it as attached. Attaching is
    /// refused outside `Draft` and when the instruction count is exhausted.
    pub fn attach_instruction(&mut self) -> (r: Result<u8, MsError>)
        ensures
            old(self).status != MsTransactionStatus::Draft ==> r == Err::<u8, MsError>(
                MsError::InvalidStateTransition,
            ) && final(self)@ == old(self)@,
            old(self).status == MsTransactionStatus::Draft && old(self).instruction_index
                == u8::MAX ==> r == Err::<u8, MsError>(MsError::IntegerOverflow) && final(self)@
                == old(self)@,
            old(self).status == MsTransactionStatus::Draft && old(self).instruction_index
                < u8::MAX ==> r == Ok::<u8, MsError>(old(self).instruction_index) && final(self)@
                == (TxView {
                instruction_index: (old(self).instruction_index + 1) as u8,
                ..old(self)@
            }),
    {
        if !matches!(self.status, MsTransactionStatus::Draft) {
            return Err(MsError::InvalidStateTransition);
        }
        if self.instruction_index == u8::MAX {
            return Err(MsError::IntegerOverflow);
        }
        let position = self.instruction_index;
        self.instruction_index = self.instruction_index + 1;
        Ok(position)
    }

    /// Moves a draft to `Active`, freezing its instruction list and opening
    /// the vote window. Refused outside `Draft`, and refused as stale when
    /// the multisig changed since the proposal.
    pub fn activate(&mut self, ms: &Ms) -> (r: Result<(), MsError>)
        ensures
            old(self).status != MsTransactionStatus::Draft ==> r == Err::<(), MsError>(
                MsError::InvalidStateTransition,
            ) && final(self)@ == old(self)@,
            old(self).status == MsTransactionStatus::Draft && spec_is_stale(old(self)@, ms@) ==> r
                == Err::<(), MsError>(MsError::StaleTransaction) && final(self)@ == old(self)@,
            old(self).status == MsTransactionStatus::Draft && !spec_is_stale(old(self)@, ms@)
                ==> r is Ok && final(self)@ == (TxView {
                status: MsTransactionStatus::Active,
                ..old(self)@
            }),
    {
        if !matches!(self.status, MsTransactionStatus::Draft) {
            return Err(MsError::InvalidStateTransition);
        }
        if self.transaction_index <= ms.ms_change_index {
            return Err(MsError::StaleTransaction);
        }
        self.status = MsTransactionStatus::Active;
        Ok(())
    }

    /// Moves an active transaction to `ExecuteReady` once the approvals
    /// reach the multisig's current threshold. Refused outside `Active`,
    /// refused as stale when the multisig changed since the proposal, and
    /// refused while the approvals fall short of the threshold.
    pub fn ready_to_execute(&mut self, ms: &Ms) -> (r: Result<(), MsError>)
        ensures
            old(self).status != MsTransactionStatus::Active ==> r == Err::<(), MsError>(
                MsError::InvalidStateTransition,
            ) && final(self)@ == old(self)@,
            old(self).status == MsTransactionStatus::Active && spec_is_stale(old(self)@, ms@)
                ==> r == Err::<(), MsError>(MsError::StaleTransaction) && final(self)@ == old(
                self,
            )@,
            old(self).status == MsTransactionStatus::Active && !spec_is_stale(old(self)@, ms@)
                && old(self)@.approved.len() < ms.threshold as int ==> r == Err::<(), MsError>(
                MsError::InvalidStateTransition,
            ) && final(self)@ == old(self)@,
            old(self).status == MsTransactionStatus::Active && !spec_is_stale(old(self)@, ms@)
                && old(self)@.approved.len() >= ms.threshold as int ==> r is Ok && final(self)@
                == (TxView { status: MsTransactionStatus::ExecuteReady, ..old(self)@ }),
    {
        if !matches!(self.status, MsTransactionStatus::Active) {
            return Err(MsError::InvalidStateTransition);
        }
        if self.transaction_index <= ms.ms_change_index {
            return Err(MsError::StaleTransaction);
        }
        if self.approved.len() < ms.threshold as usize {
            return Err(MsError::InvalidStateTransition);
        }
        self.status = MsTransactionStatus::ExecuteReady;
        Ok(())
    }

    /// Marks an active transaction `Rejected` (caller-layer policy, for
    /// example a rejection quorum). Refused outside `Active`.
    pub fn set_rejected(&mut self) -> (r: Result<(), MsError>)
        ensures
            old(self).status != MsTransactionStatus::Active ==> r == Err::<(), MsError>(
                MsError::InvalidStateTransition,
            ) && final(self)@ == old(self)@,
            old(self).status == MsTransactionStatus::Active ==> r is Ok && final(self)@
                == (TxView { status: MsTransactionStatus::Rejected, ..old(self)@ }),
    {
        if !matches!(self.status, MsTransactionStatus::Active) {
            return Err(MsError::InvalidStateTransition);
        }
        self.status = MsTransactionStatus::Rejected;
        Ok(())
    }

    /// Marks an active or execute-ready transaction `Cancelled`
    /// (caller-layer policy, for example a cancellation quorum collected in
    /// the cancel ledger). Refused in any other state.
    pub fn set_cancelled(&mut self) -> (r: Result<(), MsError>)
        ensures
            old(self).status != MsTransactionStatus::Active && old(self).status
                != MsTransactionStatus::ExecuteReady ==> r == Err::<(), MsError>(
                MsError::InvalidStateTransition,
            ) && final(self)@ == old(self)@,
            old(self).status == MsTransactionStatus::Active || old(self).status
                == MsTransactionStatus::ExecuteReady ==> r is Ok && final(self)@ == (TxView {
                status: MsTransactionStatus::Cancelled,
                ..old(self)@
            }),
    {
        if !matches!(self.status, MsTransactionStatus::Active) && !matches!(
            self.status,
            MsTransactionStatus::ExecuteReady,
        ) {
            return Err(MsError::InvalidStateTransition);
        }
        self.status = MsTransactionStatus::Cancelled;
        Ok(())
    }

    /// Marks an execute-ready transaction `Executed` once every attached
    /// instruction has completed. Refused outside `ExecuteReady` or while
    /// instructions remain to run. Staleness is settled at the two gates on
    /// the way here — activation and readiness — so the mark itself does not
    /// re-read the multisig; a caller layer that wants a later membership
    /// change to halt a pending execution cancels the transaction instead.
    pub fn set_executed(&mut self) -> (r: Result<(), MsError>)
        ensures
            old(self).status != MsTransactionStatus::ExecuteReady || old(self).executed_index
                != old(self).instruction_index ==> r == Err::<(), MsError>(
                MsError::InvalidStateTransition,
            ) && final(self)@ == old(self)@,
            old(self).status == MsTransactionStatus::ExecuteReady && old(self).executed_index
                == old(self).instruction_index ==> r is Ok && final(self)@ == (TxView {
                status: MsTransactionStatus::Executed,
                ..old(self)@
            }),
    {
        if !matches!(self.status, MsTransactionStatus::ExecuteReady) {
            return Err(MsError::InvalidStateTransition);
        }
        if self.executed_index != self.instruction_index {
            return Err(MsError::InvalidStateTransition);
        }
        self.status = MsTransactionStatus::Executed;
        Ok(())
    }

    /// Records that the attached instruction at position `executed_index`
    /// completed, moving the bookkeeping one step forward. Refused outside
    /// `ExecuteReady` and refused once every instruction has completed, so
    /// no instruction is skipped or run twice; a partly executed transaction
    /// simply stays `ExecuteReady` with its progress persisted. Like the
    /// final mark, this step does not re-check staleness: a transaction that
    /// reached `ExecuteReady` runs under the approval granted at the
    /// readiness gate, and only an explicit cancellation stops it.
    pub fn record_instruction_executed(&mut self) -> (r: Result<(), MsError>)
        requires
            old(self).wf(),
        ensures
            final(self).wf(),
            old(self).status != MsTransactionStatus::ExecuteReady || old(self).executed_index
                >= old(self).instruction_index ==> r == Err::<(), MsError>(
                MsError::InvalidStateTransition,
            ) && final(self)@ == old(self)@,
            old(self).status == MsTransactionStatus::ExecuteReady && old(self).executed_index
                < old(self).instruction_index ==> r is Ok && final(self)@ == (TxView {
                executed_index: (old(self).executed_index + 1) as u8,
                ..old(self)@
            }),
    {
        if !matches!(self.status, MsTransactionStatus::ExecuteReady) {
            return Err(MsError::InvalidStateTransition);
        }
        if self.executed_index >= self.instruction_index {
            return Err(MsError::InvalidStateTransition);
        }
        self.executed_index = self.executed_index + 1;
        Ok(())
    }

    /// Signs to approve: one-shot voting, so a member that already approved
    /// or rejected is refused with `AlreadyVoted`. Valid only while
    /// `Active`.
    pub fn sign(&mut self, member: Pubkey) -> (r: Result<(), MsError>)
        requires
            old(self).wf(),
            old(self)@.approved.len() < usize::MAX,
        ensures
            final(self).wf(),
            old(self).status != MsTransactionStatus::Active ==> r == Err::<(), MsError>(
                MsError::InvalidStateTransition,
            ) && final(self)@ == old(self)@,
            old(self).status == MsTransactionStatus::Active && (old(self)@.approved.contains(
                member,
            ) || old(self)@.rejected.contains(member)) ==> r == Err::<(), MsError>(
                MsError::AlreadyVoted,
            ) && final(self)@ == old(self)@,
            old(self).status == MsTransactionStatus::Active && !old(self)@.approved.contains(
                member,
            ) && !old(self)@.rejected.contains(member) ==> r is Ok && final(self)@ == (TxView {
                approved: final(self)@.approved,
                ..old(self)@
            }) && final(self)@.approved.to_set() == old(self)@.approved.to_set().insert(member)
                && final(self)@.approved.len() == old(self)@.approved.len() + 1,
    {
        if !matches!(self.status, MsTransactionStatus::Active) {
            return Err(MsError::InvalidStateTransition);
        }
        if search(&self.approved, &member).is_some() || search(&self.rejected, &member).is_some() {
            return Err(MsError::AlreadyVoted);
        }
        insert_sorted(&mut self.approved, member);
        proof {
            assert forall|m: Pubkey| !(#[trigger] self.approved@.contains(m)
                && self.rejected@.contains(m)) by {
                if self.approved@.contains(m) {
                    assert(self.approved@.to_set().contains(m));
                    if m != member {
                        assert(old(self)@.approved.to_set().contains(m));
                        assert(old(self)@.approved.contains(m));
                    }
                }
            }
        }
        Ok(())
    }

    /// Signs to reject: symmetric to [`Self::sign`], inserting into the
    /// rejected ledger. Valid only while `Active`.
    pub fn reject(&mut self, member: Pubkey) -> (r: Result<(), MsError>)
        requires
            old(self).wf(),
            old(self)@.rejected.len() < usize::MAX,
        ensures
            final(self).wf(),
            old(self).status != MsTransactionStatus::Active ==> r == Err::<(), MsError>(
                MsError::InvalidStateTransition,
            ) && final(self)@ == old(self)@,
            old(self).status == MsTransactionStatus::Active && (old(self)@.approved.contains(
                member,
            ) || old(self)@.rejected.contains(member)) ==> r == Err::<(), MsError>(
                MsError::AlreadyVoted,
            ) && final(self)@ == old(self)@,
            old(self).status == MsTransactionStatus::Active && !old(self)@.approved.contains(
                member,
            ) && !old(self)@.rejected.contains(member) ==> r is Ok && final(self)@ == (TxView {
                rejected: final(self)@.rejected,
                ..old(self)@
            }) && final(self)@.rejected.to_set() == old(self)@.rejected.to_set().insert(member)
                && final(self)@.rejected.len() == old(self)@.rejected.len() + 1,
    {
        if !matches!(self.status, MsTransactionStatus::Active) {
            return Err(MsError::InvalidStateTransition);
        }
        if search(&self.approved, &member).is_some() || search(&self.rejected, &member).is_some() {
            return Err(MsError::AlreadyVoted);
        }
        insert_sorted(&mut self.rejected, member);
        proof {
            assert forall|m: Pubkey| !(#[trigger] self.approved@.contains(m)
                && self.rejected@.contains(m)) by {
                if self.rejected@.contains(m) {
                    assert(self.rejected@.to_set().contains(m));
                    if m != member {
                        assert(old(self)@.rejected.to_set().contains(m));
                        assert(old(self)@.rejected.contains(m));
                    }
                }
            }
        }
        Ok(())
    }

    /// Signs to cancel an execute-ready transaction: the late-stage veto
    /// channel, distinct from rejection. Refused outside `ExecuteReady` and
    /// refused with `AlreadyCancelled` for a repeated signature.
    pub fn cancel(&mut self, member: Pubkey) -> (r: Result<(), MsError>)
        requires
            old(self).wf(),
            old(self)@.cancelled.len() < usize::MAX,
        ensures
            final(self).wf(),
            old(self).status != MsTransactionStatus::ExecuteReady ==> r == Err::<(), MsError>(
                MsError::InvalidStateTransition,
            ) && final(self)@ == old(self)@,
            old(self).status == MsTransactionStatus::ExecuteReady && old(self)@.cancelled.contains(
                member,
            ) ==> r == Err::<(), MsError>(MsError::AlreadyCancelled) && final(self)@ == old(self)@,
            old(self).status == MsTransactionStatus::ExecuteReady && !old(
                self,
            )@.cancelled.contains(member) ==> r is Ok && final(self)@ == (TxView {
                cancelled: final(self)@.cancelled,
                ..old(self)@
            }) && final(self)@.cancelled.to_set() == old(self)@.cancelled.to_set().insert(member)
                && final(self)@.cancelled.len() == old(self)@.cancelled.len() + 1,
    {
        if !matches!(self.status, MsTransactionStatus::ExecuteReady) {
            return Err(MsError::InvalidStateTransition);
        }
        if search(&self.cancelled, &member).is_some() {
            return Err(MsError::AlreadyCancelled);
        }
        insert_sorted(&mut self.cancelled, member);
        Ok(())
    }

    /// Whether the member already voted, in either direction.
    pub fn has_voted(&self, member: Pubkey) -> (r: bool)
        requires
            self.wf(),
        ensures
            r == (self@.approved.contains(member) || self@.rejected.contains(member)),
    {
        search(&self.approved, &member).is_some() || search(&self.rejected, &member).is_some()
    }

    /// Position of the member's approval, or `None`.
    pub fn has_voted_approve(&self, member: Pubkey) -> (r: Option<usize>)
        requires
            self.wf(),
        ensures
            match r {
                Some(i) => i < self@.approved.len() && self@.approved[i as int] == member,
                None => !self@.approved.contains(member),
            },
    {
        search(&self.approved, &member)
    }

    /// Position of the member's rejection, or `None`.
    pub fn has_voted_reject(&self, member: Pubkey) -> (r: Option<usize>)
        requires
            self.wf(),
        ensures
            match r {
                Some(i) => i < self@.rejected.len() && self@.rejected[i as int] == member,
                None => !self@.rejected.contains(member),
            },
    {
        search(&self.rejected, &member)
    }

    /// Position of the member's cancellation, or `None`.
    pub fn has_cancelled(&self, member: Pubkey) -> (r: Option<usize>)
        requires
            self.wf(),
        ensures
            match r {
                Some(i) => i < self@.cancelled.len() && self@.cancelled[i as int] == member,
                None => !self@.cancelled.contains(member),
            },
    {
        search(&self.cancelled, &member)
    }

    /// Administrative correction: drops the rejection at `index`. The caller
    /// layer alone decides when this is legitimate.
    pub fn remove_reject(&mut self, index: usize) -> (r: Result<(), MsError>)
        requires
            old(self).wf(),
            index < old(self)@.rejected.len(),
        ensures
            r is Ok,
            final(self).wf(),
            final(self)@ == (TxView { rejected: final(self)@.rejected, ..old(self)@ }),
            final(self)@.rejected == old(self)@.rejected.remove(index as int),
            final(self)@.rejected.to_set() == old(self)@.rejected.to_set().remove(
                old(self)@.rejected[index as int],
            ),
    {
        proof {
            lemma_sorted_remove(self@.rejected, index as int);
        }
        self.rejected.remove(index);
        proof {
            assert forall|m: Pubkey| !(#[trigger] self.approved@.contains(m)
                && self.rejected@.contains(m)) by {
                if self.rejected@.contains(m) {
                    assert(self.rejected@.to_set().contains(m));
                    assert(old(self)@.rejected.to_set().contains(m));
                    assert(old(self)@.rejected.contains(m));
                }
            }
        }
        Ok(())
    }

    /// Administrative correction: drops the approval at `index`. The caller
    /// layer alone decides when this is legitimate.
    pub fn remove_approve(&mut self, index: usize) -> (r: Result<(), MsError>)
        requires
            old(self).wf(),
            index < old(self)@.approved.len(),
        ensures
            r is Ok,
            final(self).wf(),
            final(self)@ == (TxView { approved: final(self)@.approved, ..old(self)@ }),
            final(self)@.approved == old(self)@.approved.remove(index as int),
            final(self)@.approved.to_set() == old(self)@.approved.to_set().remove(
                old(self)@.approved[index as int],
            ),
    {
        proof {
            lemma_sorted_remove(self@.approved, index as int);
        }
        self.approved.remove(index);
        proof {
            assert forall|m: Pubkey| !(#[trigger] self.approved@.contains(m)
                && self.rejected@.contains(m)) by {
                if self.approved@.contains(m) {
                    assert(self.approved@.to_set().contains(m));
                    assert(old(self)@.approved.to_set().contains(m));
                    assert(old(self)@.approved.contains(m));
                }
            }
        }
        Ok(())
    }

    /// Exact serialized footprint of a transaction record sized for `n`
    /// members: the fixed fields plus three vote ledgers each able to hold
    /// every member. A record's actual encoding never exceeds this while its
    /// ledgers hold at most `n` keys each.
    pub fn initial_size_with_members(members_len: usize) -> (r: usize)
        requires
            members_len * 96 + 101 <= usize::MAX,
        ensures
            r == MINIMUM_SIZE + 3 * (4 + members_len * 32),
    {
        MINIMUM_SIZE + 3 * (4 + members_len * 32)
    }
}

} // verus!
