use squads_mpl::codec::{
    decode_instruction, decode_multisig, decode_transaction, encode_instruction, encode_multisig,
    encode_transaction,
};
use squads_mpl::instruction::{IncomingInstruction, MsAccountMeta, MsInstruction, MAXIMUM_SIZE};
use squads_mpl::key::Pubkey;
use squads_mpl::multisig::{Ms, SIZE_WITHOUT_MEMBERS};
use squads_mpl::transaction::{MsTransaction, MsTransactionStatus, MINIMUM_SIZE};

fn key(n: u64) -> Pubkey {
    Pubkey::new(n, n.wrapping_mul(3), n ^ 0xabcd, u64::MAX - n)
}

fn sample_ms(n: u64) -> Ms {
    let mut ms = Ms {
        threshold: 0,
        authority_index: 0,
        transaction_index: 0,
        ms_change_index: 0,
        bump: 0,
        create_key: key(0),
        allow_external_execute: false,
        keys: Vec::new(),
    };
    let members: Vec<Pubkey> = (1..=n).map(key).collect();
    ms.init(((n + 1) / 2) as u16, key(1000), members, 251).unwrap();
    ms.transaction_index = 77;
    ms.ms_change_index = 11;
    ms
}

fn sample_tx() -> MsTransaction {
    MsTransaction {
        creator: key(1),
        ms: key(1000),
        transaction_index: 5,
        authority_index: 2,
        authority_bump: 250,
        status: MsTransactionStatus::ExecuteReady,
        instruction_index: 3,
        bump: 249,
        approved: vec![key(1), key(2)],
        rejected: vec![key(3)],
        cancelled: vec![key(4), key(5), key(6)],
        executed_index: 2,
    }
}

fn sample_instruction(k: usize, d: usize) -> MsInstruction {
    let keys: Vec<MsAccountMeta> = (0..k)
        .map(|i| MsAccountMeta {
            pubkey: key(i as u64 + 500),
            is_signer: i % 2 == 0,
            is_writable: i % 3 == 0,
        })
        .collect();
    let data: Vec<u8> = (0..d).map(|i| (i % 251) as u8).collect();
    MsInstruction {
        program_id: key(7777),
        keys,
        data,
        instruction_index: 2,
        bump: 248,
        executed: false,
    }
}

#[test]
fn multisig_round_trip_bytes() {
    for n in [1u64, 3, 7] {
        let ms = sample_ms(n);
        let bytes = encode_multisig(&ms);
        let back = decode_multisig(&bytes).unwrap();
        assert_eq!(back.threshold, ms.threshold);
        assert_eq!(back.authority_index, ms.authority_index);
        assert_eq!(back.transaction_index, ms.transaction_index);
        assert_eq!(back.ms_change_index, ms.ms_change_index);
        assert_eq!(back.bump, ms.bump);
        assert_eq!(back.create_key, ms.create_key);
        assert_eq!(back.allow_external_execute, ms.allow_external_execute);
        assert_eq!(back.keys, ms.keys);
        // Re-encoding yields identical bytes and an identical size.
        assert_eq!(encode_multisig(&back), bytes);
    }
}

#[test]
fn multisig_encoded_size_is_exact() {
    for n in [1u64, 3, 7] {
        let ms = sample_ms(n);
        let bytes = encode_multisig(&ms);
        assert_eq!(bytes.len(), SIZE_WITHOUT_MEMBERS + 32 * ms.keys.len());
    }
}

#[test]
fn transaction_round_trip_bytes() {
    let tx = sample_tx();
    let bytes = encode_transaction(&tx);
    let back = decode_transaction(&bytes).unwrap();
    assert_eq!(back.creator, tx.creator);
    assert_eq!(back.ms, tx.ms);
    assert_eq!(back.transaction_index, tx.transaction_index);
    assert_eq!(back.authority_index, tx.authority_index);
    assert_eq!(back.authority_bump, tx.authority_bump);
    assert_eq!(back.status, tx.status);
    assert_eq!(back.instruction_index, tx.instruction_index);
    assert_eq!(back.bump, tx.bump);
    assert_eq!(back.approved, tx.approved);
    assert_eq!(back.rejected, tx.rejected);
    assert_eq!(back.cancelled, tx.cancelled);
    assert_eq!(back.executed_index, tx.executed_index);
    assert_eq!(encode_transaction(&back), bytes);
}

#[test]
fn transaction_statuses_all_round_trip() {
    for status in [
        MsTransactionStatus::Draft,
        MsTransactionStatus::Active,
        MsTransactionStatus::ExecuteReady,
        MsTransactionStatus::Executed,
        MsTransactionStatus::Rejected,
        MsTransactionStatus::Cancelled,
    ] {
        let mut tx = sample_tx();
        tx.status = status;
        let back = decode_transaction(&encode_transaction(&tx)).unwrap();
        assert_eq!(back.status, status);
    }
}

#[test]
fn transaction_size_never_exceeds_initial_allocation() {
    // A transaction sized for n members never outgrows the allocation,
    // and fills it exactly when every ledger holds n votes.
    let tx = sample_tx();
    let bytes = encode_transaction(&tx);
    let allocation = MsTransaction::initial_size_with_members(3);
    assert_eq!(allocation, MINIMUM_SIZE + 3 * (4 + 3 * 32));
    assert!(bytes.len() <= allocation);
    let mut full = sample_tx();
    full.approved = vec![key(1), key(2), key(3)];
    full.rejected = vec![key(4), key(5), key(6)];
    full.cancelled = vec![key(7), key(8), key(9)];
    assert_eq!(encode_transaction(&full).len(), allocation);
}

#[test]
fn instruction_round_trip_bytes() {
    for (k, d) in [(0usize, 0usize), (1, 5), (4, 100)] {
        let ix = sample_instruction(k, d);
        let bytes = encode_instruction(&ix);
        let back = decode_instruction(&bytes).unwrap();
        assert_eq!(back.program_id, ix.program_id);
        assert_eq!(back.keys, ix.keys);
        assert_eq!(back.data, ix.data);
        assert_eq!(back.instruction_index, ix.instruction_index);
        assert_eq!(back.bump, ix.bump);
        assert_eq!(back.executed, ix.executed);
        assert_eq!(encode_instruction(&back), bytes);
    }
}

#[test]
fn get_max_size_matches_encoded_record() {
    // The size computed from the incoming instruction before creation is
    // exactly the footprint of the stored record built from it.
    for (k, d) in [(0usize, 0usize), (2, 9), (5, 333)] {
        let template = sample_instruction(k, d);
        let incoming = IncomingInstruction {
            program_id: template.program_id,
            keys: template.keys.clone(),
            data: template.data.clone(),
        };
        let size = incoming.get_max_size();
        assert_eq!(size, 32 + 4 + 34 * k + 4 + d + 3);
        let mut record = sample_instruction(0, 0);
        record.init(2, incoming, 248).unwrap();
        assert_eq!(encode_instruction(&record).len(), size);
        assert!(size <= MAXIMUM_SIZE);
    }
}

#[test]
fn instruction_init_copies_verbatim() {
    let template = sample_instruction(3, 17);
    let incoming = IncomingInstruction {
        program_id: template.program_id,
        keys: template.keys.clone(),
        data: template.data.clone(),
    };
    let mut record = sample_instruction(0, 0);
    record.init(9, incoming, 77).unwrap();
    assert_eq!(record.program_id, template.program_id);
    assert_eq!(record.keys, template.keys);
    assert_eq!(record.data, template.data);
    assert_eq!(record.instruction_index, 9);
    assert_eq!(record.bump, 77);
    assert!(!record.executed);
}

#[test]
fn native_call_is_lossless() {
    let record = sample_instruction(3, 17);
    let call = record.native_call();
    assert_eq!(call.program_id, record.program_id);
    assert_eq!(call.keys, record.keys);
    assert_eq!(call.data, record.data);
}

#[test]
fn decode_rejects_malformed_input() {
    assert!(decode_multisig(&Vec::new()).is_none());
    assert!(decode_multisig(&vec![0u8; 58]).is_none());
    let ms = sample_ms(2);
    let mut bytes = encode_multisig(&ms);
    bytes.pop();
    assert!(decode_multisig(&bytes).is_none());
    let tx = sample_tx();
    let mut bytes = encode_transaction(&tx);
    bytes.push(0);
    assert!(decode_transaction(&bytes).is_none());
    let mut bytes = encode_transaction(&tx);
    bytes[73] = 9; // an undefined status tag
    assert!(decode_transaction(&bytes).is_none());
    assert!(decode_instruction(&vec![1u8, 2, 3]).is_none());
}
