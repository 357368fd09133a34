use squads_mpl::error::MsError;
use squads_mpl::key::Pubkey;
use squads_mpl::multisig::{Ms, SIZE_WITHOUT_MEMBERS};

fn key(n: u64) -> Pubkey {
    Pubkey::new(n, 0, 0, 0)
}

fn blank_ms() -> Ms {
    Ms {
        threshold: 0,
        authority_index: 0,
        transaction_index: 0,
        ms_change_index: 0,
        bump: 0,
        create_key: key(0),
        allow_external_execute: false,
        keys: Vec::new(),
    }
}

fn ms_with(threshold: u16, members: Vec<Pubkey>) -> Ms {
    let mut ms = blank_ms();
    ms.init(threshold, key(99), members, 254).unwrap();
    ms
}

#[test]
fn init_sets_counters_and_sorts_members() {
    let ms = ms_with(2, vec![key(30), key(10), key(20)]);
    assert_eq!(ms.threshold, 2);
    assert_eq!(ms.authority_index, 1);
    assert_eq!(ms.transaction_index, 0);
    assert_eq!(ms.ms_change_index, 0);
    assert_eq!(ms.bump, 254);
    assert_eq!(ms.create_key, key(99));
    assert!(!ms.allow_external_execute);
    assert_eq!(ms.keys, vec![key(10), key(20), key(30)]);
}

#[test]
fn init_rejects_zero_threshold() {
    let mut ms = blank_ms();
    let r = ms.init(0, key(99), vec![key(1), key(2)], 0);
    assert_eq!(r, Err(MsError::InvalidThreshold));
}

#[test]
fn init_rejects_threshold_above_member_count() {
    let mut ms = blank_ms();
    let r = ms.init(3, key(99), vec![key(1), key(2)], 0);
    assert_eq!(r, Err(MsError::InvalidThreshold));
}

#[test]
fn init_rejects_empty_member_set() {
    let mut ms = blank_ms();
    let r = ms.init(1, key(99), Vec::new(), 0);
    assert_eq!(r, Err(MsError::InvalidThreshold));
}

#[test]
fn init_rejects_duplicate_members() {
    let mut ms = blank_ms();
    let r = ms.init(1, key(99), vec![key(1), key(2), key(1)], 0);
    assert_eq!(r, Err(MsError::DuplicateMember));
}

#[test]
fn member_order_does_not_matter() {
    let a = ms_with(2, vec![key(1), key(2), key(3)]);
    let b = ms_with(2, vec![key(3), key(1), key(2)]);
    assert_eq!(a.keys, b.keys);
    for n in 0..5 {
        assert_eq!(a.is_member(key(n)), b.is_member(key(n)));
    }
}

#[test]
fn is_member_finds_sorted_positions() {
    let ms = ms_with(2, vec![key(30), key(10), key(20)]);
    assert_eq!(ms.is_member(key(10)), Some(0));
    assert_eq!(ms.is_member(key(20)), Some(1));
    assert_eq!(ms.is_member(key(30)), Some(2));
    assert_eq!(ms.is_member(key(40)), None);
}

#[test]
fn add_member_inserts_sorted_and_advances_change_index() {
    let mut ms = ms_with(2, vec![key(10), key(30)]);
    ms.transaction_index = 7;
    ms.add_member(key(20)).unwrap();
    assert_eq!(ms.keys, vec![key(10), key(20), key(30)]);
    assert_eq!(ms.ms_change_index, 7);
    assert_eq!(ms.threshold, 2);
}

#[test]
fn add_member_is_noop_when_present() {
    let mut ms = ms_with(2, vec![key(10), key(30)]);
    ms.transaction_index = 7;
    ms.add_member(key(10)).unwrap();
    assert_eq!(ms.keys, vec![key(10), key(30)]);
    assert_eq!(ms.ms_change_index, 0);
}

#[test]
fn remove_member_clamps_threshold() {
    let mut ms = ms_with(3, vec![key(1), key(2), key(3)]);
    ms.remove_member(key(2)).unwrap();
    assert_eq!(ms.keys, vec![key(1), key(3)]);
    assert_eq!(ms.threshold, 2);
    ms.remove_member(key(3)).unwrap();
    assert_eq!(ms.threshold, 1);
    assert!(ms.threshold >= 1 && (ms.threshold as usize) <= ms.keys.len());
}

#[test]
fn remove_member_is_noop_when_absent() {
    let mut ms = ms_with(2, vec![key(1), key(2)]);
    ms.remove_member(key(5)).unwrap();
    assert_eq!(ms.keys, vec![key(1), key(2)]);
    assert_eq!(ms.ms_change_index, 0);
}

#[test]
fn remove_member_refuses_last_member() {
    let mut ms = ms_with(1, vec![key(1)]);
    let r = ms.remove_member(key(1));
    assert_eq!(r, Err(MsError::CannotRemoveLastMember));
    assert_eq!(ms.keys, vec![key(1)]);
}

#[test]
fn change_threshold_checks_bounds() {
    let mut ms = ms_with(1, vec![key(1), key(2)]);
    assert_eq!(ms.change_threshold(0), Err(MsError::InvalidThreshold));
    assert_eq!(ms.change_threshold(3), Err(MsError::InvalidThreshold));
    ms.transaction_index = 4;
    ms.change_threshold(2).unwrap();
    assert_eq!(ms.threshold, 2);
    assert_eq!(ms.ms_change_index, 4);
}

#[test]
fn add_authority_counts_and_overflows() {
    let mut ms = ms_with(1, vec![key(1)]);
    ms.add_authority().unwrap();
    assert_eq!(ms.authority_index, 2);
    ms.authority_index = u16::MAX;
    assert_eq!(ms.add_authority(), Err(MsError::IntegerOverflow));
    assert_eq!(ms.authority_index, u16::MAX);
}

#[test]
fn next_transaction_index_counts_and_overflows() {
    let mut ms = ms_with(1, vec![key(1)]);
    assert_eq!(ms.next_transaction_index(), Ok(1));
    assert_eq!(ms.next_transaction_index(), Ok(2));
    ms.transaction_index = u32::MAX;
    assert_eq!(ms.next_transaction_index(), Err(MsError::IntegerOverflow));
}

#[test]
fn set_change_index_sets_the_field() {
    let mut ms = ms_with(1, vec![key(1)]);
    ms.set_change_index(11).unwrap();
    assert_eq!(ms.ms_change_index, 11);
}

#[test]
fn multisig_size_constant_value() {
    assert_eq!(SIZE_WITHOUT_MEMBERS, 58);
}
