use squads_mpl::error::MsError;
use squads_mpl::key::Pubkey;
use squads_mpl::multisig::Ms;
use squads_mpl::transaction::{MsTransaction, MsTransactionStatus};

fn key(n: u64) -> Pubkey {
    Pubkey::new(n, 0, 0, 0)
}

fn three_member_ms() -> Ms {
    let mut ms = Ms {
        threshold: 0,
        authority_index: 0,
        transaction_index: 0,
        ms_change_index: 0,
        bump: 0,
        create_key: key(0),
        allow_external_execute: false,
        keys: Vec::new(),
    };
    ms.init(2, key(99), vec![key(1), key(2), key(3)], 254).unwrap();
    ms
}

fn blank_tx() -> MsTransaction {
    MsTransaction {
        creator: key(0),
        ms: key(0),
        transaction_index: 0,
        authority_index: 0,
        authority_bump: 0,
        status: MsTransactionStatus::Draft,
        instruction_index: 0,
        bump: 0,
        approved: Vec::new(),
        rejected: Vec::new(),
        cancelled: Vec::new(),
        executed_index: 0,
    }
}

fn proposed_tx(ms: &mut Ms) -> MsTransaction {
    let index = ms.next_transaction_index().unwrap();
    let mut tx = blank_tx();
    tx.init(key(1), key(99), index, 253, 1, 252).unwrap();
    tx
}

#[test]
fn init_starts_in_draft() {
    let mut ms = three_member_ms();
    let tx = proposed_tx(&mut ms);
    assert_eq!(tx.status, MsTransactionStatus::Draft);
    assert_eq!(tx.transaction_index, 1);
    assert_eq!(tx.creator, key(1));
    assert_eq!(tx.instruction_index, 0);
    assert_eq!(tx.executed_index, 0);
    assert!(tx.approved.is_empty() && tx.rejected.is_empty() && tx.cancelled.is_empty());
}

#[test]
fn full_lifecycle_to_executed() {
    // Three members, threshold two: propose, attach one instruction,
    // activate, collect two approvals, execute.
    let mut ms = three_member_ms();
    let mut tx = proposed_tx(&mut ms);
    assert_eq!(tx.attach_instruction(), Ok(0));
    assert_eq!(tx.instruction_index, 1);
    tx.activate(&ms).unwrap();
    assert_eq!(tx.status, MsTransactionStatus::Active);
    tx.sign(key(1)).unwrap();
    assert_eq!(tx.approved.len(), 1);
    assert_eq!(tx.ready_to_execute(&ms), Err(MsError::InvalidStateTransition));
    tx.sign(key(2)).unwrap();
    assert_eq!(tx.approved.len(), 2);
    tx.ready_to_execute(&ms).unwrap();
    assert_eq!(tx.status, MsTransactionStatus::ExecuteReady);
    tx.record_instruction_executed().unwrap();
    assert_eq!(tx.executed_index, 1);
    tx.set_executed().unwrap();
    assert_eq!(tx.status, MsTransactionStatus::Executed);
    assert_eq!(tx.executed_index, 1);
}

#[test]
fn membership_change_staleness() {
    // Same setup; after activation and before any vote, remove a member:
    // the change index advances and the in-flight transaction is stale.
    let mut ms = three_member_ms();
    let mut tx = proposed_tx(&mut ms);
    tx.attach_instruction().unwrap();
    tx.activate(&ms).unwrap();
    ms.remove_member(key(3)).unwrap();
    assert_eq!(ms.keys.len(), 2);
    assert_eq!(ms.ms_change_index, 1);
    tx.sign(key(1)).unwrap();
    tx.sign(key(2)).unwrap();
    assert_eq!(tx.ready_to_execute(&ms), Err(MsError::StaleTransaction));
    assert_eq!(tx.status, MsTransactionStatus::Active);
}

#[test]
fn stale_draft_cannot_activate() {
    // A draft proposed before a membership change is refused at
    // activation, however many approvals it could later collect.
    let mut ms = three_member_ms();
    let mut tx = proposed_tx(&mut ms);
    ms.add_member(key(4)).unwrap();
    assert_eq!(ms.ms_change_index, 1);
    assert_eq!(tx.activate(&ms), Err(MsError::StaleTransaction));
    assert_eq!(tx.status, MsTransactionStatus::Draft);
}

#[test]
fn staleness_overrides_collected_approvals() {
    // A transaction proposed at index 5 is refused once the change index
    // reaches 6, no matter how the votes would have counted.
    let mut ms = three_member_ms();
    for _ in 0..5 {
        ms.next_transaction_index().unwrap();
    }
    let mut tx = blank_tx();
    tx.init(key(1), key(99), 5, 253, 1, 252).unwrap();
    ms.next_transaction_index().unwrap();
    ms.set_change_index(6).unwrap();
    assert_eq!(tx.activate(&ms), Err(MsError::StaleTransaction));
}

#[test]
fn activate_requires_draft() {
    let mut ms = three_member_ms();
    let mut tx = proposed_tx(&mut ms);
    tx.activate(&ms).unwrap();
    assert_eq!(tx.activate(&ms), Err(MsError::InvalidStateTransition));
}

#[test]
fn attach_requires_draft() {
    let mut ms = three_member_ms();
    let mut tx = proposed_tx(&mut ms);
    tx.activate(&ms).unwrap();
    assert_eq!(tx.attach_instruction(), Err(MsError::InvalidStateTransition));
}

#[test]
fn vote_requires_active() {
    let mut ms = three_member_ms();
    let mut tx = proposed_tx(&mut ms);
    assert_eq!(tx.sign(key(1)), Err(MsError::InvalidStateTransition));
    assert_eq!(tx.reject(key(1)), Err(MsError::InvalidStateTransition));
}

#[test]
fn double_vote_is_refused() {
    let mut ms = three_member_ms();
    let mut tx = proposed_tx(&mut ms);
    tx.activate(&ms).unwrap();
    tx.sign(key(1)).unwrap();
    assert_eq!(tx.sign(key(1)), Err(MsError::AlreadyVoted));
    assert_eq!(tx.reject(key(1)), Err(MsError::AlreadyVoted));
    tx.reject(key(2)).unwrap();
    assert_eq!(tx.sign(key(2)), Err(MsError::AlreadyVoted));
    assert_eq!(tx.reject(key(2)), Err(MsError::AlreadyVoted));
    // No member stands in both ledgers.
    assert!(tx.has_voted_approve(key(1)).is_some());
    assert!(tx.has_voted_reject(key(1)).is_none());
    assert!(tx.has_voted_approve(key(2)).is_none());
    assert!(tx.has_voted_reject(key(2)).is_some());
    assert!(tx.has_voted(key(1)) && tx.has_voted(key(2)) && !tx.has_voted(key(3)));
}

#[test]
fn votes_are_kept_sorted() {
    let mut ms = three_member_ms();
    let mut tx = proposed_tx(&mut ms);
    tx.activate(&ms).unwrap();
    tx.sign(key(3)).unwrap();
    tx.sign(key(1)).unwrap();
    tx.sign(key(2)).unwrap();
    assert_eq!(tx.approved, vec![key(1), key(2), key(3)]);
}

#[test]
fn cancel_needs_execute_ready() {
    let mut ms = three_member_ms();
    let mut tx = proposed_tx(&mut ms);
    tx.activate(&ms).unwrap();
    assert_eq!(tx.cancel(key(1)), Err(MsError::InvalidStateTransition));
    tx.sign(key(1)).unwrap();
    tx.sign(key(2)).unwrap();
    tx.ready_to_execute(&ms).unwrap();
    tx.cancel(key(1)).unwrap();
    assert_eq!(tx.cancel(key(1)), Err(MsError::AlreadyCancelled));
    assert!(tx.has_cancelled(key(1)).is_some());
    assert!(tx.has_cancelled(key(2)).is_none());
    tx.set_cancelled().unwrap();
    assert_eq!(tx.status, MsTransactionStatus::Cancelled);
}

#[test]
fn set_rejected_needs_active() {
    let mut ms = three_member_ms();
    let mut tx = proposed_tx(&mut ms);
    assert_eq!(tx.set_rejected(), Err(MsError::InvalidStateTransition));
    tx.activate(&ms).unwrap();
    tx.set_rejected().unwrap();
    assert_eq!(tx.status, MsTransactionStatus::Rejected);
    assert_eq!(tx.set_cancelled(), Err(MsError::InvalidStateTransition));
}

#[test]
fn sequential_execution_is_bounded() {
    // Two instructions: recording completion works exactly twice, then
    // refuses over-execution; only then may the transaction be marked
    // executed.
    let mut ms = three_member_ms();
    let mut tx = proposed_tx(&mut ms);
    assert_eq!(tx.attach_instruction(), Ok(0));
    assert_eq!(tx.attach_instruction(), Ok(1));
    tx.activate(&ms).unwrap();
    tx.sign(key(1)).unwrap();
    tx.sign(key(2)).unwrap();
    tx.ready_to_execute(&ms).unwrap();
    assert_eq!(tx.set_executed(), Err(MsError::InvalidStateTransition));
    tx.record_instruction_executed().unwrap();
    assert_eq!(tx.executed_index, 1);
    assert_eq!(tx.set_executed(), Err(MsError::InvalidStateTransition));
    tx.record_instruction_executed().unwrap();
    assert_eq!(tx.executed_index, 2);
    assert_eq!(
        tx.record_instruction_executed(),
        Err(MsError::InvalidStateTransition)
    );
    tx.set_executed().unwrap();
    assert_eq!(tx.status, MsTransactionStatus::Executed);
}

#[test]
fn record_execution_needs_execute_ready() {
    let mut ms = three_member_ms();
    let mut tx = proposed_tx(&mut ms);
    tx.attach_instruction().unwrap();
    assert_eq!(
        tx.record_instruction_executed(),
        Err(MsError::InvalidStateTransition)
    );
}

#[test]
fn remove_vote_helpers_drop_by_position() {
    let mut ms = three_member_ms();
    let mut tx = proposed_tx(&mut ms);
    tx.activate(&ms).unwrap();
    tx.sign(key(1)).unwrap();
    tx.sign(key(3)).unwrap();
    tx.reject(key(2)).unwrap();
    let pos = tx.has_voted_approve(key(1)).unwrap();
    tx.remove_approve(pos).unwrap();
    assert_eq!(tx.approved, vec![key(3)]);
    let pos = tx.has_voted_reject(key(2)).unwrap();
    tx.remove_reject(pos).unwrap();
    assert!(tx.rejected.is_empty());
}

#[test]
fn ready_to_execute_threshold_boundary() {
    // Below the threshold readiness is refused; at the threshold it
    // succeeds against the multisig's current state.
    let mut ms = three_member_ms();
    let mut tx = proposed_tx(&mut ms);
    tx.activate(&ms).unwrap();
    assert_eq!(tx.ready_to_execute(&ms), Err(MsError::InvalidStateTransition));
    tx.sign(key(1)).unwrap();
    assert_eq!(tx.ready_to_execute(&ms), Err(MsError::InvalidStateTransition));
    tx.sign(key(2)).unwrap();
    assert_eq!(tx.ready_to_execute(&ms), Ok(()));
}
