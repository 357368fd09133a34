use vstd::prelude::*;

use crate::error::MsError;
use crate::key::{insert_sorted, lemma_sorted_remove, lemma_sorted_unique, search, sorted_strict,
    Pubkey};

verus! {

/// Serialized footprint of a multisig record before its member keys: an
/// 8-byte record tag, the scalar fields, and the length prefix of the member
/// vector. Each member key adds 32 bytes on top of this.
pub const SIZE_WITHOUT_MEMBERS: usize = 8 + 2 + 2 + 4 + 4 + 1 + 32 + 1 + 4;

/// The basic state record for a multisig: the membership ledger, the approval
/// threshold, and the counters that order transactions and invalidate stale
/// proposals.
pub struct Ms {
    /// Number of approvals required to authorize a transaction.
    pub threshold: u16,
    /// Advisory counter of authority identities handed out so far.
    pub authority_index: u16,
    /// Monotonic counter; source of uniqueness for transaction identity.
    pub transaction_index: u32,
    /// The transaction index as of the most recent membership or threshold
    /// mutation. Transactions proposed at or below it are stale.
    pub ms_change_index: u32,
    /// Derivation bump for the multisig's own storage address.
    pub bump: u8,
    /// The key the multisig was created under.
    pub create_key: Pubkey,
    /// Retired flag kept for layout compatibility; never set by this core.
    pub allow_external_execute: bool,
    /// Member keys, strictly sorted in the key order.
    pub keys: Vec<Pubkey>,
}

/// The mathematical model of a multisig record.
pub ghost struct MsView {
    pub threshold: u16,
    pub authority_index: u16,
    pub transaction_index: u32,
    pub ms_change_index: u32,
    pub bump: u8,
    pub create_key: Pubkey,
    pub allow_external_execute: bool,
    pub keys: Seq<Pubkey>,
}

impl View for Ms {
    type V = MsView;

    open spec fn view(&self) -> MsView {
        MsView {
            threshold: self.threshold,
            authority_index: self.authority_index,
            transaction_index: self.transaction_index,
            ms_change_index: self.ms_change_index,
            bump: self.bump,
            create_key: self.create_key,
            allow_external_execute: self.allow_external_execute,
            keys: self.keys@,
        }
    }
}

impl MsView {
    /// Well-formedness: the member ledger is strictly sorted (so free of
    /// duplicates) and the threshold always satisfiable:
    /// `1 <= threshold <= |members|`.
    pub open spec fn wf(self) -> bool {
        &&& sorted_strict(self.keys)
        &&& 1 <= self.threshold as int
        &&& self.threshold as int <= self.keys.len()
    }
}

/// The threshold invariant: a well-formed multisig never has a threshold of
/// zero nor one beyond its member count, so a threshold can always be met.
/// Every mutating operation of [`Ms`] ensures well-formedness, so this holds
/// after any sequence of membership and threshold operations.
pub proof fn lemma_threshold_invariant(m: MsView)
    requires
        m.wf(),
    ensures
        1 <= m.threshold as int <= m.keys.len(),
{
}

/// Member order independence: two well-formed multisigs holding the same set
/// of member keys hold them as the same sorted sequence, so every position
/// and membership query agrees. Adding members in any order therefore yields
/// the same ledger.
pub proof fn lemma_member_order_independent(a: MsView, b: MsView)
    requires
        a.wf(),
        b.wf(),
        a.keys.to_set() == b.keys.to_set(),
    ensures
        a.keys == b.keys,
{
    lemma_sorted_unique(a.keys, b.keys);
}

impl Ms {
    pub open spec fn wf(self) -> bool {
        self@.wf()
    }

    /// Initializes the record: checks the threshold against the incoming
    /// member list, refuses duplicate members, sorts the members, and resets
    /// every counter. The first authority index is reserved for the
    /// program's own control identity, so the counter starts at 1.
    pub fn init(
        &mut self,
        threshold: u16,
        create_key: Pubkey,
        members: Vec<Pubkey>,
        bump: u8,
    ) -> (r: Result<(), MsError>)
        ensures
            r == Err::<(), MsError>(MsError::InvalidThreshold) <==> (threshold == 0
                || members@.len() < threshold as int),
            threshold != 0 && threshold as int <= members@.len() ==> (r == Err::<(), MsError>(
                MsError::DuplicateMember,
            ) <==> !members@.no_duplicates()),
            r is Ok <==> (threshold != 0 && threshold as int <= members@.len()
                && members@.no_duplicates()),
            r is Err ==> final(self)@ == old(self)@,
            r is Ok ==> final(self).wf(),
            r is Ok ==> final(self)@.keys.to_set() == members@.to_set(),
            r is Ok ==> final(self)@.keys.len() == members@.len(),
            r is Ok ==> final(self)@ == (MsView {
                threshold,
                authority_index: 1u16,
                transaction_index: 0u32,
                ms_change_index: 0u32,
                bump,
                create_key,
                allow_external_execute: false,
                keys: final(self)@.keys,
            }),
    {
        if threshold == 0 || members.len() < threshold as usize {
            return Err(MsError::InvalidThreshold);
        }
        let mut sorted_keys: Vec<Pubkey> = Vec::new();
        let mut idx: usize = 0;
        while idx < members.len()
            invariant
                idx <= members@.len(),
                threshold != 0,
                threshold as int <= members@.len(),
                sorted_strict(sorted_keys@),
                sorted_keys@.to_set() == members@.take(idx as int).to_set(),
                sorted_keys@.len() == idx,
                members@.take(idx as int).no_duplicates(),
            decreases members@.len() - idx,
        {
            let member = members[idx];
            match search(&sorted_keys, &member) {
                Some(_) => {
                    proof {
                        assert(sorted_keys@.contains(member));
                        assert(sorted_keys@.to_set().contains(member));
                        assert(members@.take(idx as int).contains(member));
                        let j = choose|j: int|
                            0 <= j < idx && members@.take(idx as int)[j] == member;
                        assert(members@[j] == member);
                        assert(members@[idx as int] == member);
                        assert(!members@.no_duplicates());
                    }
                    return Err(MsError::DuplicateMember);
                },
                None => {
                    proof {
                        let prefix = members@.take(idx as int);
                        assert(sorted_keys@.to_set().contains(member) == sorted_keys@.contains(
                            member,
                        ));
                        assert(prefix.to_set().contains(member) == prefix.contains(member));
                        assert(!prefix.contains(member));
                    }
                    insert_sorted(&mut sorted_keys, member);
                    proof {
                        let prefix = members@.take(idx as int);
                        let next = members@.take(idx as int + 1);
                        assert(!prefix.contains(member));
                        assert(next =~= prefix.push(member));
                        assert forall|x: Pubkey| next.contains(x) <==> (prefix.contains(x)
                            || x == member) by {
                            if next.contains(x) {
                                let p = choose|p: int| 0 <= p < next.len() && next[p] == x;
                                if p < idx {
                                    assert(prefix[p] == x);
                                }
                            }
                            if prefix.contains(x) {
                                let p = choose|p: int| 0 <= p < prefix.len() && prefix[p] == x;
                                assert(next[p] == x);
                            }
                            if x == member {
                                assert(next[idx as int] == x);
                            }
                        }
                        assert(sorted_keys@.to_set() =~= next.to_set());
                        assert(!prefix.contains(member));
                        assert forall|i: int, j: int|
                            0 <= i < next.len() && 0 <= j < next.len() && i != j
                            implies next[i] != next[j] by {
                            if i < idx && j < idx {
                                assert(prefix[i] == next[i] && prefix[j] == next[j]);
                            } else if j == idx {
                                assert(next[i] == prefix[i]);
                                if next[i] == member {
                                    assert(prefix.contains(member));
                                }
                            } else if i == idx {
                                assert(next[j] == prefix[j]);
                                if next[j] == member {
                                    assert(prefix.contains(member));
                                }
                            }
                        }
                    }
                    idx = idx + 1;
                },
            }
        }
        proof {
            assert(members@.take(members@.len() as int) =~= members@);
        }
        self.threshold = threshold;
        self.keys = sorted_keys;
        self.authority_index = 1;
        self.transaction_index = 0;
        self.ms_change_index = 0;
        self.bump = bump;
        self.create_key = create_key;
        self.allow_external_execute = false;
        Ok(())
    }

    /// Position of `member` in the sorted member ledger, or `None` when the
    /// key is not a member. Binary search.
    pub fn is_member(&self, member: Pubkey) -> (r: Option<usize>)
        requires
            self.wf(),
        ensures
            match r {
                Some(i) => i < self@.keys.len() && self@.keys[i as int] == member,
                None => !self@.keys.contains(member),
            },
    {
        search(&self.keys, &member)
    }

    /// Sets the change index, marking every transaction proposed at or below
    /// `index` as stale for activation and execution.
    pub fn set_change_index(&mut self, index: u32) -> (r: Result<(), MsError>)
        ensures
            r is Ok,
            final(self)@ == (MsView { ms_change_index: index, ..old(self)@ }),
    {
        self.ms_change_index = index;
        Ok(())
    }

    /// Hands out the next authority tracking index. Purely advisory for
    /// clients deriving vault identities; fails only on counter overflow.
    pub fn add_authority(&mut self) -> (r: Result<(), MsError>)
        ensures
            old(self).authority_index == u16::MAX ==> r == Err::<(), MsError>(
                MsError::IntegerOverflow,
            ) && final(self)@ == old(self)@,
            old(self).authority_index < u16::MAX ==> r is Ok && final(self)@ == (MsView {
                authority_index: (old(self).authority_index + 1) as u16,
                ..old(self)@
            }),
    {
        if self.authority_index == u16::MAX {
            return Err(MsError::IntegerOverflow);
        }
        self.authority_index = self.authority_index + 1;
        Ok(())
    }

    /// Allocates the index for a newly proposed transaction by advancing the
    /// transaction counter; the new value is the proposal's identity and is
    /// never reused. Fails only on counter overflow.
    pub fn next_transaction_index(&mut self) -> (r: Result<u32, MsError>)
        ensures
            old(self).transaction_index == u32::MAX ==> r == Err::<u32, MsError>(
                MsError::IntegerOverflow,
            ) && final(self)@ == old(self)@,
            old(self).transaction_index < u32::MAX ==> r == Ok::<u32, MsError>(
                (old(self).transaction_index + 1) as u32,
            ) && final(self)@ == (MsView {
                transaction_index: (old(self).transaction_index + 1) as u32,
                ..old(self)@
            }),
    {
        if self.transaction_index == u32::MAX {
            return Err(MsError::IntegerOverflow);
        }
        self.transaction_index = self.transaction_index + 1;
        Ok(self.transaction_index)
    }

    /// Adds a member. A no-op if the key is already a member; otherwise the
    /// key is inserted at its sorted position and the change index advances
    /// to the current transaction index, invalidating in-flight proposals.
    /// Growth never touches the threshold.
    pub fn add_member(&mut self, member: Pubkey) -> (r: Result<(), MsError>)
        requires
            old(self).wf(),
            old(self)@.keys.len() < usize::MAX,
        ensures
            r is Ok,
            final(self).wf(),
            old(self)@.keys.contains(member) ==> final(self)@ == old(self)@,
            !old(self)@.keys.contains(member) ==> final(self)@ == (MsView {
                ms_change_index: old(self).transaction_index,
                keys: final(self)@.keys,
                ..old(self)@
            }),
            !old(self)@.keys.contains(member) ==> final(self)@.keys.to_set() == old(self)@.keys.to_set().insert(member),
            !old(self)@.keys.contains(member) ==> final(self)@.keys.len() == old(self)@.keys.len() + 1,
    {
        match search(&self.keys, &member) {
            Some(_) => Ok(()),
            None => {
                insert_sorted(&mut self.keys, member);
                self.ms_change_index = self.transaction_index;
                Ok(())
            },
        }
    }

    /// Removes a member. A no-op if the key is not a member; refused when it
    /// is the last member, since an empty member set is disallowed. When the
    /// shrunk ledger falls below the threshold, the threshold is clamped to
    /// the new member count, and the change index advances to the current
    /// transaction index.
    pub fn remove_member(&mut self, member: Pubkey) -> (r: Result<(), MsError>)
        requires
            old(self).wf(),
        ensures
            final(self).wf(),
            !old(self)@.keys.contains(member) ==> r is Ok && final(self)@ == old(self)@,
            old(self)@.keys.contains(member) && old(self)@.keys.len() == 1 ==> r == Err::<
                (),
                MsError,
            >(MsError::CannotRemoveLastMember) && final(self)@ == old(self)@,
            old(self)@.keys.contains(member) && old(self)@.keys.len() > 1 ==> r is Ok
                && final(self)@ == (MsView {
                threshold: final(self).threshold,
                ms_change_index: old(self).transaction_index,
                keys: final(self)@.keys,
                ..old(self)@
            }) && final(self)@.keys.to_set() == old(self)@.keys.to_set().remove(member) && final(self)@.keys.len() == old(self)@.keys.len() - 1 && final(self).threshold as int == (
            if old(self).threshold as int <= old(self)@.keys.len() - 1 {
                old(self).threshold as int
            } else {
                old(self)@.keys.len() - 1
            }),
    {
        match search(&self.keys, &member) {
            None => Ok(()),
            Some(ind) => {
                if self.keys.len() == 1 {
                    return Err(MsError::CannotRemoveLastMember);
                }
                proof {
                    lemma_sorted_remove(self@.keys, ind as int);
                }
                self.keys.remove(ind);
                if self.keys.len() < self.threshold as usize {
                    self.threshold = self.keys.len() as u16;
                }
                self.ms_change_index = self.transaction_index;
                Ok(())
            },
        }
    }

    /// Sets the threshold; refused when zero or beyond the member count. A
    /// successful change advances the change index to the current
    /// transaction index.
    pub fn change_threshold(&mut self, threshold: u16) -> (r: Result<(), MsError>)
        requires
            old(self).wf(),
        ensures
            final(self).wf(),
            r is Ok <==> (threshold != 0 && threshold as int <= old(self)@.keys.len()),
            r == Err::<(), MsError>(MsError::InvalidThreshold) <==> (threshold == 0
                || old(self)@.keys.len() < threshold as int),
            r is Err ==> final(self)@ == old(self)@,
            r is Ok ==> final(self)@ == (MsView {
                threshold,
                ms_change_index: old(self).transaction_index,
                ..old(self)@
            }),
    {
        if threshold == 0 || self.keys.len() < threshold as usize {
            return Err(MsError::InvalidThreshold);
        }
        self.threshold = threshold;
        self.ms_change_index = self.transaction_index;
        Ok(())
    }
}

} // verus!
