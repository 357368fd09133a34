use vstd::prelude::*;

use crate::instruction::{spec_packed_len, IncomingView, IxView, MsAccountMeta, MsInstruction};
use crate::key::Pubkey;
use crate::multisig::{Ms, MsView, SIZE_WITHOUT_MEMBERS};
use crate::transaction::{MsTransaction, MsTransactionStatus, TxView, MINIMUM_SIZE};

verus! {

// ------------------------------------------------------------------
// The byte layout, as spec functions.
//
// Every scalar field is fixed width, little endian; every collection is
// length prefixed with a 32-bit count. The status reserves 13 bytes (one
// tag byte, twelve spare), and the multisig record opens with an 8-byte
// record tag, so the size constants of the record types are exact.
// ------------------------------------------------------------------

pub open spec fn bool_byte(b: bool) -> u8 {
    if b {
        1u8
    } else {
        0u8
    }
}

pub open spec fn u16_le(x: u16) -> Seq<u8> {
    seq![(x & 0xff) as u8, ((x >> 8) & 0xff) as u8]
}

pub open spec fn u32_le(x: u32) -> Seq<u8> {
    seq![
        (x & 0xff) as u8,
        ((x >> 8) & 0xff) as u8,
        ((x >> 16) & 0xff) as u8,
        ((x >> 24) & 0xff) as u8,
    ]
}

pub open spec fn u64_le(x: u64) -> Seq<u8> {
    seq![
        (x & 0xff) as u8,
        ((x >> 8) & 0xff) as u8,
        ((x >> 16) & 0xff) as u8,
        ((x >> 24) & 0xff) as u8,
        ((x >> 32) & 0xff) as u8,
        ((x >> 40) & 0xff) as u8,
        ((x >> 48) & 0xff) as u8,
        ((x >> 56) & 0xff) as u8,
    ]
}

pub open spec fn key_bytes(k: Pubkey) -> Seq<u8> {
    u64_le(k.w0) + u64_le(k.w1) + u64_le(k.w2) + u64_le(k.w3)
}

pub open spec fn meta_bytes(m: MsAccountMeta) -> Seq<u8> {
    key_bytes(m.pubkey) + seq![bool_byte(m.is_signer), bool_byte(m.is_writable)]
}

pub open spec fn status_tag(s: MsTransactionStatus) -> u8 {
    match s {
        MsTransactionStatus::Draft => 0u8,
        MsTransactionStatus::Active => 1u8,
        MsTransactionStatus::ExecuteReady => 2u8,
        MsTransactionStatus::Executed => 3u8,
        MsTransactionStatus::Rejected => 4u8,
        MsTransactionStatus::Cancelled => 5u8,
    }
}

pub open spec fn status_bytes(s: MsTransactionStatus) -> Seq<u8> {
    seq![
        status_tag(s),
        0u8,
        0u8,
        0u8,
        0u8,
        0u8,
        0u8,
        0u8,
        0u8,
        0u8,
        0u8,
        0u8,
        0u8,
    ]
}

/// The 8-byte record tag that opens a serialized multisig record.
pub open spec fn ms_tag() -> Seq<u8> {
    seq![109u8, 117u8, 108u8, 116u8, 105u8, 115u8, 105u8, 103u8]
}

pub open spec fn keys_bytes(s: Seq<Pubkey>) -> Seq<u8>
    decreases s.len(),
{
    if s.len() == 0 {
        Seq::empty()
    } else {
        key_bytes(s[0]) + keys_bytes(s.skip(1))
    }
}

pub open spec fn metas_bytes(s: Seq<MsAccountMeta>) -> Seq<u8>
    decreases s.len(),
{
    if s.len() == 0 {
        Seq::empty()
    } else {
        meta_bytes(s[0]) + metas_bytes(s.skip(1))
    }
}

pub open spec fn keyvec_bytes(s: Seq<Pubkey>) -> Seq<u8> {
    u32_le(s.len() as u32) + keys_bytes(s)
}

pub open spec fn metavec_bytes(s: Seq<MsAccountMeta>) -> Seq<u8> {
    u32_le(s.len() as u32) + metas_bytes(s)
}

pub open spec fn datavec_bytes(d: Seq<u8>) -> Seq<u8> {
    u32_le(d.len() as u32) + d
}

/// The full byte image of a multisig record.
#[verifier::opaque]
pub open spec fn ms_record_bytes(v: MsView) -> Seq<u8> {
    ms_tag() + (u16_le(v.threshold) + (u16_le(v.authority_index) + (u32_le(v.transaction_index)
        + (u32_le(v.ms_change_index) + (seq![v.bump] + (key_bytes(v.create_key) + (seq![
        bool_byte(v.allow_external_execute),
    ] + keyvec_bytes(v.keys))))))))
}

/// The full byte image of a transaction record.
#[verifier::opaque]
pub open spec fn tx_record_bytes(v: TxView) -> Seq<u8> {
    key_bytes(v.creator) + (key_bytes(v.ms) + (u32_le(v.transaction_index) + (u32_le(
        v.authority_index,
    ) + (seq![v.authority_bump] + (status_bytes(v.status) + (seq![v.instruction_index] + (seq![
        v.bump,
    ] + (keyvec_bytes(v.approved) + (keyvec_bytes(v.rejected) + (keyvec_bytes(v.cancelled) + seq![
        v.executed_index,
    ]))))))))))
}

/// The full byte image of a stored instruction record.
#[verifier::opaque]
pub open spec fn ix_record_bytes(v: IxView) -> Seq<u8> {
    key_bytes(v.program_id) + (metavec_bytes(v.keys) + (datavec_bytes(v.data) + (seq![
        v.instruction_index,
    ] + (seq![v.bump] + seq![bool_byte(v.executed)]))))
}

// ------------------------------------------------------------------
// The decoders, as spec functions: each takes the remaining input and
// yields the decoded value with what is left, or nothing when the input
// does not parse.
// ------------------------------------------------------------------

pub open spec fn d_u8(b: Seq<u8>) -> Option<(u8, Seq<u8>)> {
    if b.len() < 1 {
        None
    } else {
        Some((b[0], b.skip(1)))
    }
}

pub open spec fn u16_of(b0: u8, b1: u8) -> u16 {
    (b0 as u16) | ((b1 as u16) << 8)
}

pub open spec fn u32_of(b0: u8, b1: u8, b2: u8, b3: u8) -> u32 {
    (b0 as u32) | ((b1 as u32) << 8) | ((b2 as u32) << 16) | ((b3 as u32) << 24)
}

pub open spec fn u64_of(b0: u8, b1: u8, b2: u8, b3: u8, b4: u8, b5: u8, b6: u8, b7: u8) -> u64 {
    (b0 as u64) | ((b1 as u64) << 8) | ((b2 as u64) << 16) | ((b3 as u64) << 24) | ((b4
        as u64) << 32) | ((b5 as u64) << 40) | ((b6 as u64) << 48) | ((b7 as u64) << 56)
}

pub open spec fn d_u16(b: Seq<u8>) -> Option<(u16, Seq<u8>)> {
    if b.len() < 2 {
        None
    } else {
        Some((u16_of(b[0], b[1]), b.skip(2)))
    }
}

pub open spec fn d_u32(b: Seq<u8>) -> Option<(u32, Seq<u8>)> {
    if b.len() < 4 {
        None
    } else {
        Some((u32_of(b[0], b[1], b[2], b[3]), b.skip(4)))
    }
}

pub open spec fn d_u64(b: Seq<u8>) -> Option<(u64, Seq<u8>)> {
    if b.len() < 8 {
        None
    } else {
        Some((u64_of(b[0], b[1], b[2], b[3], b[4], b[5], b[6], b[7]), b.skip(8)))
    }
}

pub open spec fn d_bool(b: Seq<u8>) -> Option<(bool, Seq<u8>)> {
    if b.len() < 1 {
        None
    } else if b[0] == 0 {
        Some((false, b.skip(1)))
    } else if b[0] == 1 {
        Some((true, b.skip(1)))
    } else {
        None
    }
}

pub open spec fn d_key(b: Seq<u8>) -> Option<(Pubkey, Seq<u8>)> {
    match d_u64(b) {
        None => None,
        Some((w0, r0)) => match d_u64(r0) {
            None => None,
            Some((w1, r1)) => match d_u64(r1) {
                None => None,
                Some((w2, r2)) => match d_u64(r2) {
                    None => None,
                    Some((w3, r3)) => Some((Pubkey { w0, w1, w2, w3 }, r3)),
                },
            },
        },
    }
}

pub open spec fn d_meta(b: Seq<u8>) -> Option<(MsAccountMeta, Seq<u8>)> {
    match d_key(b) {
        None => None,
        Some((pubkey, r0)) => match d_bool(r0) {
            None => None,
            Some((is_signer, r1)) => match d_bool(r1) {
                None => None,
                Some((is_writable, r2)) => Some(
                    (MsAccountMeta { pubkey, is_signer, is_writable }, r2),
                ),
            },
        },
    }
}

pub open spec fn d_status(b: Seq<u8>) -> Option<(MsTransactionStatus, Seq<u8>)> {
    if b.len() < 13 {
        None
    } else if b[0] == 0 {
        Some((MsTransactionStatus::Draft, b.skip(13)))
    } else if b[0] == 1 {
        Some((MsTransactionStatus::Active, b.skip(13)))
    } else if b[0] == 2 {
        Some((MsTransactionStatus::ExecuteReady, b.skip(13)))
    } else if b[0] == 3 {
        Some((MsTransactionStatus::Executed, b.skip(13)))
    } else if b[0] == 4 {
        Some((MsTransactionStatus::Rejected, b.skip(13)))
    } else if b[0] == 5 {
        Some((MsTransactionStatus::Cancelled, b.skip(13)))
    } else {
        None
    }
}

pub open spec fn d_keys(b: Seq<u8>, n: nat) -> Option<(Seq<Pubkey>, Seq<u8>)>
    decreases n,
{
    if n == 0 {
        Some((Seq::empty(), b))
    } else {
        match d_key(b) {
            None => None,
            Some((k, r)) => match d_keys(r, (n - 1) as nat) {
                None => None,
                Some((s, r2)) => Some((seq![k] + s, r2)),
            },
        }
    }
}

pub open spec fn d_metas(b: Seq<u8>, n: nat) -> Option<(Seq<MsAccountMeta>, Seq<u8>)>
    decreases n,
{
    if n == 0 {
        Some((Seq::empty(), b))
    } else {
        match d_meta(b) {
            None => None,
            Some((m, r)) => match d_metas(r, (n - 1) as nat) {
                None => None,
                Some((s, r2)) => Some((seq![m] + s, r2)),
            },
        }
    }
}

pub open spec fn d_keyvec(b: Seq<u8>) -> Option<(Seq<Pubkey>, Seq<u8>)> {
    match d_u32(b) {
        None => None,
        Some((n, r)) => d_keys(r, n as nat),
    }
}

pub open spec fn d_metavec(b: Seq<u8>) -> Option<(Seq<MsAccountMeta>, Seq<u8>)> {
    match d_u32(b) {
        None => None,
        Some((n, r)) => d_metas(r, n as nat),
    }
}

pub open spec fn d_datavec(b: Seq<u8>) -> Option<(Seq<u8>, Seq<u8>)> {
    match d_u32(b) {
        None => None,
        Some((n, r)) => if r.len() < n as int {
            None
        } else {
            Some((r.take(n as int), r.skip(n as int)))
        },
    }
}

/// Decodes a full multisig record; the input must hold exactly one record.
#[verifier::opaque]
pub open spec fn d_ms(b: Seq<u8>) -> Option<MsView> {
    if b.len() < 8 || b.take(8) != ms_tag() {
        None
    } else {
        match d_u16(b.skip(8)) {
            None => None,
            Some((threshold, r0)) => match d_u16(r0) {
                None => None,
                Some((authority_index, r1)) => match d_u32(r1) {
                    None => None,
                    Some((transaction_index, r2)) => match d_u32(r2) {
                        None => None,
                        Some((ms_change_index, r3)) => match d_u8(r3) {
                            None => None,
                            Some((bump, r4)) => match d_key(r4) {
                                None => None,
                                Some((create_key, r5)) => match d_bool(r5) {
                                    None => None,
                                    Some((allow_external_execute, r6)) => match d_keyvec(r6) {
                                        None => None,
                                        Some((keys, r7)) => if r7.len() == 0 {
                                            Some(
                                                MsView {
                                                    threshold,
                                                    authority_index,
                                                    transaction_index,
                                                    ms_change_index,
                                                    bump,
                                                    create_key,
                                                    allow_external_execute,
                                                    keys,
                                                },
                                            )
                                        } else {
                                            None
                                        },
                                    },
                                },
                            },
                        },
                    },
                },
            },
        }
    }
}

/// Decodes a full transaction record; the input must hold exactly one
/// record.
#[verifier::opaque]
pub open spec fn d_tx(b: Seq<u8>) -> Option<TxView> {
    match d_key(b) {
        None => None,
        Some((creator, r0)) => match d_key(r0) {
            None => None,
            Some((ms, r1)) => match d_u32(r1) {
                None => None,
                Some((transaction_index, r2)) => match d_u32(r2) {
                    None => None,
                    Some((authority_index, r3)) => match d_u8(r3) {
                        None => None,
                        Some((authority_bump, r4)) => match d_status(r4) {
                            None => None,
                            Some((status, r5)) => match d_u8(r5) {
                                None => None,
                                Some((instruction_index, r6)) => match d_u8(r6) {
                                    None => None,
                                    Some((bump, r7)) => match d_keyvec(r7) {
                                        None => None,
                                        Some((approved, r8)) => match d_keyvec(r8) {
                                            None => None,
                                            Some((rejected, r9)) => match d_keyvec(r9) {
                                                None => None,
                                                Some((cancelled, r10)) => match d_u8(r10) {
                                                    None => None,
                                                    Some((executed_index, r11)) => if r11.len()
                                                        == 0 {
                                                        Some(
                                                            TxView {
                                                                creator,
                                                                ms,
                                                                transaction_index,
                                                                authority_index,
                                                                authority_bump,
                                                                status,
                                                                instruction_index,
                                                                bump,
                                                                approved,
                                                                rejected,
                                                                cancelled,
                                                                executed_index,
                                                            },
                                                        )
                                                    } else {
                                                        None
                                                    },
                                                },
                                            },
                                        },
                                    },
                                },
                            },
                        },
                    },
                },
            },
        },
    }
}

/// Decodes a full stored-instruction record; the input must hold exactly
/// one record.
#[verifier::opaque]
pub open spec fn d_ix(b: Seq<u8>) -> Option<IxView> {
    match d_key(b) {
        None => None,
        Some((program_id, r0)) => match d_metavec(r0) {
            None => None,
            Some((keys, r1)) => match d_datavec(r1) {
                None => None,
                Some((data, r2)) => match d_u8(r2) {
                    None => None,
                    Some((instruction_index, r3)) => match d_u8(r3) {
                        None => None,
                        Some((bump, r4)) => match d_bool(r4) {
                            None => None,
                            Some((executed, r5)) => if r5.len() == 0 {
                                Some(
                                    IxView {
                                        program_id,
                                        keys,
                                        data,
                                        instruction_index,
                                        bump,
                                        executed,
                                    },
                                )
                            } else {
                                None
                            },
                        },
                    },
                },
            },
        },
    }
}

// ------------------------------------------------------------------
// Encoders.
// ------------------------------------------------------------------

fn enc_u8(out: &mut Vec<u8>, x: u8)
    ensures
        final(out)@ == old(out)@ + seq![x],
{
    out.push(x);
    proof {
        assert(out@ =~= old(out)@ + seq![x]);
    }
}

fn enc_bool(out: &mut Vec<u8>, b: bool)
    ensures
        final(out)@ == old(out)@ + seq![bool_byte(b)],
{
    if b {
        enc_u8(out, 1);
    } else {
        enc_u8(out, 0);
    }
}

fn enc_u16(out: &mut Vec<u8>, x: u16)
    ensures
        final(out)@ == old(out)@ + u16_le(x),
{
    proof {
        assert(x & 0xff < 256 && (x >> 8) & 0xff < 256) by (bit_vector);
    }
    out.push((x & 0xff) as u8);
    out.push(((x >> 8) & 0xff) as u8);
    proof {
        assert(out@ =~= old(out)@ + u16_le(x));
    }
}

fn enc_u32(out: &mut Vec<u8>, x: u32)
    ensures
        final(out)@ == old(out)@ + u32_le(x),
{
    proof {
        assert(x & 0xff < 256 && (x >> 8) & 0xff < 256 && (x >> 16) & 0xff < 256 && (x >> 24)
            & 0xff < 256) by (bit_vector);
    }
    out.push((x & 0xff) as u8);
    out.push(((x >> 8) & 0xff) as u8);
    out.push(((x >> 16) & 0xff) as u8);
    out.push(((x >> 24) & 0xff) as u8);
    proof {
        assert(out@ =~= old(out)@ + u32_le(x));
    }
}

fn enc_u64(out: &mut Vec<u8>, x: u64)
    ensures
        final(out)@ == old(out)@ + u64_le(x),
{
    proof {
        assert(x & 0xff < 256 && (x >> 8) & 0xff < 256 && (x >> 16) & 0xff < 256 && (x >> 24)
            & 0xff < 256 && (x >> 32) & 0xff < 256 && (x >> 40) & 0xff < 256 && (x >> 48) & 0xff
            < 256 && (x >> 56) & 0xff < 256) by (bit_vector);
    }
    out.push((x & 0xff) as u8);
    out.push(((x >> 8) & 0xff) as u8);
    out.push(((x >> 16) & 0xff) as u8);
    out.push(((x >> 24) & 0xff) as u8);
    out.push(((x >> 32) & 0xff) as u8);
    out.push(((x >> 40) & 0xff) as u8);
    out.push(((x >> 48) & 0xff) as u8);
    out.push(((x >> 56) & 0xff) as u8);
    proof {
        assert(out@ =~= old(out)@ + u64_le(x));
    }
}

fn enc_key(out: &mut Vec<u8>, k: &Pubkey)
    ensures
        final(out)@ == old(out)@ + key_bytes(*k),
{
    enc_u64(out, k.w0);
    enc_u64(out, k.w1);
    enc_u64(out, k.w2);
    enc_u64(out, k.w3);
    proof {
        assert(out@ =~= old(out)@ + key_bytes(*k));
    }
}

fn enc_status(out: &mut Vec<u8>, s: MsTransactionStatus)
    ensures
        final(out)@ == old(out)@ + status_bytes(s),
{
    let tag: u8 = match s {
        MsTransactionStatus::Draft => 0,
        MsTransactionStatus::Active => 1,
        MsTransactionStatus::ExecuteReady => 2,
        MsTransactionStatus::Executed => 3,
        MsTransactionStatus::Rejected => 4,
        MsTransactionStatus::Cancelled => 5,
    };
    enc_u8(out, tag);
    enc_u8(out, 0);
    enc_u8(out, 0);
    enc_u8(out, 0);
    enc_u8(out, 0);
    enc_u8(out, 0);
    enc_u8(out, 0);
    enc_u8(out, 0);
    enc_u8(out, 0);
    enc_u8(out, 0);
    enc_u8(out, 0);
    enc_u8(out, 0);
    enc_u8(out, 0);
    proof {
        assert(out@ =~= old(out)@ + status_bytes(s));
    }
}

fn enc_keyvec(out: &mut Vec<u8>, v: &Vec<Pubkey>)
    requires
        v@.len() <= u32::MAX,
    ensures
        final(out)@ == old(out)@ + keyvec_bytes(v@),
{
    enc_u32(out, v.len() as u32);
    let mut i: usize = 0;
    while i < v.len()
        invariant
            i <= v@.len(),
            v@.len() <= u32::MAX,
            out@ == old(out)@ + u32_le(v@.len() as u32) + keys_bytes(v@.take(i as int)),
        decreases v@.len() - i,
    {
        enc_key(out, &v[i]);
        proof {
            assert(v@.take(i as int + 1) =~= v@.take(i as int).push(v@[i as int]));
            lemma_keys_bytes_push(v@.take(i as int), v@[i as int]);
            assert(out@ =~= old(out)@ + u32_le(v@.len() as u32) + keys_bytes(
                v@.take(i as int + 1),
            ));
        }
        i = i + 1;
    }
    proof {
        assert(v@.take(v@.len() as int) =~= v@);
        assert(out@ =~= old(out)@ + keyvec_bytes(v@));
    }
}

fn enc_metavec(out: &mut Vec<u8>, v: &Vec<MsAccountMeta>)
    requires
        v@.len() <= u32::MAX,
    ensures
        final(out)@ == old(out)@ + metavec_bytes(v@),
{
    enc_u32(out, v.len() as u32);
    let mut i: usize = 0;
    while i < v.len()
        invariant
            i <= v@.len(),
            v@.len() <= u32::MAX,
            out@ == old(out)@ + u32_le(v@.len() as u32) + metas_bytes(v@.take(i as int)),
        decreases v@.len() - i,
    {
        let m = v[i];
        enc_key(out, &m.pubkey);
        enc_bool(out, m.is_signer);
        enc_bool(out, m.is_writable);
        proof {
            assert(v@.take(i as int + 1) =~= v@.take(i as int).push(v@[i as int]));
            lemma_metas_bytes_push(v@.take(i as int), v@[i as int]);
            assert(out@ =~= old(out)@ + u32_le(v@.len() as u32) + metas_bytes(
                v@.take(i as int + 1),
            ));
        }
        i = i + 1;
    }
    proof {
        assert(v@.take(v@.len() as int) =~= v@);
        assert(out@ =~= old(out)@ + metavec_bytes(v@));
    }
}

fn enc_datavec(out: &mut Vec<u8>, d: &Vec<u8>)
    requires
        d@.len() <= u32::MAX,
    ensures
        final(out)@ == old(out)@ + datavec_bytes(d@),
{
    enc_u32(out, d.len() as u32);
    let mut i: usize = 0;
    while i < d.len()
        invariant
            i <= d@.len(),
            d@.len() <= u32::MAX,
            out@ == old(out)@ + u32_le(d@.len() as u32) + d@.take(i as int),
        decreases d@.len() - i,
    {
        enc_u8(out, d[i]);
        proof {
            assert(out@ =~= old(out)@ + u32_le(d@.len() as u32) + d@.take(i as int + 1));
        }
        i = i + 1;
    }
    proof {
        assert(d@.take(d@.len() as int) =~= d@);
        assert(out@ =~= old(out)@ + datavec_bytes(d@));
    }
}

/// Appending one key to a ledger appends its 32 bytes to the ledger's
/// image.
pub proof fn lemma_keys_bytes_push(s: Seq<Pubkey>, k: Pubkey)
    ensures
        keys_bytes(s.push(k)) == keys_bytes(s) + key_bytes(k),
    decreases s.len(),
{
    if s.len() == 0 {
        assert(s.push(k) =~= seq![k]);
        assert(s.push(k).skip(1) =~= Seq::<Pubkey>::empty());
        assert(keys_bytes(Seq::<Pubkey>::empty()) == Seq::<u8>::empty());
        assert(keys_bytes(s.push(k)) == key_bytes(k) + Seq::<u8>::empty());
        assert(keys_bytes(s) == Seq::<u8>::empty());
        assert(key_bytes(k) + Seq::<u8>::empty() =~= Seq::<u8>::empty() + key_bytes(k));
    } else {
        assert(s.push(k).skip(1) =~= s.skip(1).push(k));
        lemma_keys_bytes_push(s.skip(1), k);
        assert(s.push(k)[0] == s[0]);
        assert(keys_bytes(s.push(k)) == key_bytes(s[0]) + keys_bytes(s.skip(1).push(k)));
        assert(keys_bytes(s.push(k)) == key_bytes(s[0]) + (keys_bytes(s.skip(1)) + key_bytes(k)));
        assert(keys_bytes(s) == key_bytes(s[0]) + keys_bytes(s.skip(1)));
        assert(key_bytes(s[0]) + (keys_bytes(s.skip(1)) + key_bytes(k)) =~= (key_bytes(s[0])
            + keys_bytes(s.skip(1))) + key_bytes(k));
    }
}

/// Appending one account triple appends its 34 bytes to the list's image.
pub proof fn lemma_metas_bytes_push(s: Seq<MsAccountMeta>, m: MsAccountMeta)
    ensures
        metas_bytes(s.push(m)) == metas_bytes(s) + meta_bytes(m),
    decreases s.len(),
{
    if s.len() == 0 {
        assert(s.push(m) =~= seq![m]);
        assert(s.push(m).skip(1) =~= Seq::<MsAccountMeta>::empty());
        assert(metas_bytes(Seq::<MsAccountMeta>::empty()) == Seq::<u8>::empty());
        assert(metas_bytes(s.push(m)) == meta_bytes(m) + Seq::<u8>::empty());
        assert(metas_bytes(s) == Seq::<u8>::empty());
        assert(meta_bytes(m) + Seq::<u8>::empty() =~= Seq::<u8>::empty() + meta_bytes(m));
    } else {
        assert(s.push(m).skip(1) =~= s.skip(1).push(m));
        lemma_metas_bytes_push(s.skip(1), m);
        assert(s.push(m)[0] == s[0]);
        assert(metas_bytes(s.push(m)) == meta_bytes(s[0]) + metas_bytes(s.skip(1).push(m)));
        assert(metas_bytes(s.push(m)) == meta_bytes(s[0]) + (metas_bytes(s.skip(1)) + meta_bytes(
            m,
        )));
        assert(metas_bytes(s) == meta_bytes(s[0]) + metas_bytes(s.skip(1)));
        assert(meta_bytes(s[0]) + (metas_bytes(s.skip(1)) + meta_bytes(m)) =~= (meta_bytes(s[0])
            + metas_bytes(s.skip(1))) + meta_bytes(m));
    }
}

/// Serializes a multisig record into its exact byte image.
pub fn encode_multisig(m: &Ms) -> (r: Vec<u8>)
    requires
        m@.keys.len() <= u32::MAX,
    ensures
        r@ == ms_record_bytes(m@),
{
    let mut out: Vec<u8> = Vec::new();
    enc_u8(&mut out, 109);
    enc_u8(&mut out, 117);
    enc_u8(&mut out, 108);
    enc_u8(&mut out, 116);
    enc_u8(&mut out, 105);
    enc_u8(&mut out, 115);
    enc_u8(&mut out, 105);
    enc_u8(&mut out, 103);
    proof {
        assert(out@ =~= ms_tag());
    }
    enc_u16(&mut out, m.threshold);
    enc_u16(&mut out, m.authority_index);
    enc_u32(&mut out, m.transaction_index);
    enc_u32(&mut out, m.ms_change_index);
    enc_u8(&mut out, m.bump);
    enc_key(&mut out, &m.create_key);
    enc_bool(&mut out, m.allow_external_execute);
    enc_keyvec(&mut out, &m.keys);
    proof {
        reveal(ms_record_bytes);
        assert(out@ =~= ms_record_bytes(m@));
    }
    out
}

/// Serializes a transaction record into its exact byte image.
pub fn encode_transaction(t: &MsTransaction) -> (r: Vec<u8>)
    requires
        t@.approved.len() <= u32::MAX,
        t@.rejected.len() <= u32::MAX,
        t@.cancelled.len() <= u32::MAX,
    ensures
        r@ == tx_record_bytes(t@),
{
    let mut out: Vec<u8> = Vec::new();
    enc_key(&mut out, &t.creator);
    enc_key(&mut out, &t.ms);
    enc_u32(&mut out, t.transaction_index);
    enc_u32(&mut out, t.authority_index);
    enc_u8(&mut out, t.authority_bump);
    enc_status(&mut out, t.status);
    enc_u8(&mut out, t.instruction_index);
    enc_u8(&mut out, t.bump);
    enc_keyvec(&mut out, &t.approved);
    enc_keyvec(&mut out, &t.rejected);
    enc_keyvec(&mut out, &t.cancelled);
    enc_u8(&mut out, t.executed_index);
    proof {
        reveal(tx_record_bytes);
        assert(out@ =~= tx_record_bytes(t@));
    }
    out
}

/// Serializes a stored-instruction record into its exact byte image.
pub fn encode_instruction(ix: &MsInstruction) -> (r: Vec<u8>)
    requires
        ix@.keys.len() <= u32::MAX,
        ix@.data.len() <= u32::MAX,
    ensures
        r@ == ix_record_bytes(ix@),
{
    let mut out: Vec<u8> = Vec::new();
    enc_key(&mut out, &ix.program_id);
    enc_metavec(&mut out, &ix.keys);
    enc_datavec(&mut out, &ix.data);
    enc_u8(&mut out, ix.instruction_index);
    enc_u8(&mut out, ix.bump);
    enc_bool(&mut out, ix.executed);
    proof {
        reveal(ix_record_bytes);
        assert(out@ =~= ix_record_bytes(ix@));
    }
    out
}

// ------------------------------------------------------------------
// Exec decoders. Each reader consumes from `pos` and reports the value
// with the next position, exactly as the spec decoder does on the
// remaining input.
// ------------------------------------------------------------------

fn read_u8(bytes: &Vec<u8>, pos: usize) -> (r: Option<(u8, usize)>)
    requires
        pos <= bytes@.len(),
    ensures
        match r {
            Some((x, p)) => p <= bytes@.len() && p == pos + 1 && d_u8(bytes@.skip(pos as int))
                == Some((x, bytes@.skip(p as int))),
            None => d_u8(bytes@.skip(pos as int)) is None,
        },
{
    if bytes.len() - pos < 1 {
        return None;
    }
    let x = bytes[pos];
    proof {
        let rem = bytes@.skip(pos as int);
        assert(rem[0] == bytes@[pos as int]);
        assert(rem.skip(1) =~= bytes@.skip(pos as int + 1));
    }
    Some((x, pos + 1))
}

fn read_bool(bytes: &Vec<u8>, pos: usize) -> (r: Option<(bool, usize)>)
    requires
        pos <= bytes@.len(),
    ensures
        match r {
            Some((v, p)) => p <= bytes@.len() && p == pos + 1 && d_bool(bytes@.skip(pos as int))
                == Some((v, bytes@.skip(p as int))),
            None => d_bool(bytes@.skip(pos as int)) is None,
        },
{
    if bytes.len() - pos < 1 {
        return None;
    }
    let x = bytes[pos];
    proof {
        let rem = bytes@.skip(pos as int);
        assert(rem[0] == bytes@[pos as int]);
        assert(rem.skip(1) =~= bytes@.skip(pos as int + 1));
    }
    if x == 0 {
        Some((false, pos + 1))
    } else if x == 1 {
        Some((true, pos + 1))
    } else {
        None
    }
}

fn read_u16(bytes: &Vec<u8>, pos: usize) -> (r: Option<(u16, usize)>)
    requires
        pos <= bytes@.len(),
    ensures
        match r {
            Some((x, p)) => p <= bytes@.len() && p == pos + 2 && d_u16(bytes@.skip(pos as int))
                == Some((x, bytes@.skip(p as int))),
            None => d_u16(bytes@.skip(pos as int)) is None,
        },
{
    if bytes.len() - pos < 2 {
        return None;
    }
    let x: u16 = (bytes[pos] as u16) | ((bytes[pos + 1] as u16) << 8);
    proof {
        let rem = bytes@.skip(pos as int);
        assert(rem[0] == bytes@[pos as int] && rem[1] == bytes@[pos as int + 1]);
        assert(x == u16_of(rem[0], rem[1]));
        assert(rem.skip(2) =~= bytes@.skip(pos as int + 2));
    }
    Some((x, pos + 2))
}

fn read_u32(bytes: &Vec<u8>, pos: usize) -> (r: Option<(u32, usize)>)
    requires
        pos <= bytes@.len(),
    ensures
        match r {
            Some((x, p)) => p <= bytes@.len() && p == pos + 4 && d_u32(bytes@.skip(pos as int))
                == Some((x, bytes@.skip(p as int))),
            None => d_u32(bytes@.skip(pos as int)) is None,
        },
{
    if bytes.len() - pos < 4 {
        return None;
    }
    let x: u32 = (bytes[pos] as u32) | ((bytes[pos + 1] as u32) << 8) | ((bytes[pos + 2]
        as u32) << 16) | ((bytes[pos + 3] as u32) << 24);
    proof {
        let rem = bytes@.skip(pos as int);
        assert(rem[0] == bytes@[pos as int] && rem[1] == bytes@[pos as int + 1] && rem[2]
            == bytes@[pos as int + 2] && rem[3] == bytes@[pos as int + 3]);
        assert(x == u32_of(rem[0], rem[1], rem[2], rem[3]));
        assert(rem.skip(4) =~= bytes@.skip(pos as int + 4));
    }
    Some((x, pos + 4))
}

fn read_u64(bytes: &Vec<u8>, pos: usize) -> (r: Option<(u64, usize)>)
    requires
        pos <= bytes@.len(),
    ensures
        match r {
            Some((x, p)) => p <= bytes@.len() && p == pos + 8 && d_u64(bytes@.skip(pos as int))
                == Some((x, bytes@.skip(p as int))),
            None => d_u64(bytes@.skip(pos as int)) is None,
        },
{
    if bytes.len() - pos < 8 {
        return None;
    }
    let x: u64 = (bytes[pos] as u64) | ((bytes[pos + 1] as u64) << 8) | ((bytes[pos + 2]
        as u64) << 16) | ((bytes[pos + 3] as u64) << 24) | ((bytes[pos + 4] as u64) << 32)
        | ((bytes[pos + 5] as u64) << 40) | ((bytes[pos + 6] as u64) << 48) | ((bytes[pos + 7]
        as u64) << 56);
    proof {
        let rem = bytes@.skip(pos as int);
        assert(rem[0] == bytes@[pos as int] && rem[1] == bytes@[pos as int + 1] && rem[2]
            == bytes@[pos as int + 2] && rem[3] == bytes@[pos as int + 3] && rem[4] == bytes@[pos
            as int + 4] && rem[5] == bytes@[pos as int + 5] && rem[6] == bytes@[pos as int + 6]
            && rem[7] == bytes@[pos as int + 7]);
        assert(x == u64_of(rem[0], rem[1], rem[2], rem[3], rem[4], rem[5], rem[6], rem[7]));
        assert(rem.skip(8) =~= bytes@.skip(pos as int + 8));
    }
    Some((x, pos + 8))
}

fn read_key(bytes: &Vec<u8>, pos: usize) -> (r: Option<(Pubkey, usize)>)
    requires
        pos <= bytes@.len(),
    ensures
        match r {
            Some((k, p)) => p <= bytes@.len() && p == pos + 32 && d_key(bytes@.skip(pos as int))
                == Some((k, bytes@.skip(p as int))),
            None => d_key(bytes@.skip(pos as int)) is None,
        },
{
    let (w0, p0) = match read_u64(bytes, pos) {
        None => {
            return None;
        },
        Some(v) => v,
    };
    let (w1, p1) = match read_u64(bytes, p0) {
        None => {
            return None;
        },
        Some(v) => v,
    };
    let (w2, p2) = match read_u64(bytes, p1) {
        None => {
            return None;
        },
        Some(v) => v,
    };
    let (w3, p3) = match read_u64(bytes, p2) {
        None => {
            return None;
        },
        Some(v) => v,
    };
    Some((Pubkey { w0, w1, w2, w3 }, p3))
}

fn read_meta(bytes: &Vec<u8>, pos: usize) -> (r: Option<(MsAccountMeta, usize)>)
    requires
        pos <= bytes@.len(),
    ensures
        match r {
            Some((m, p)) => p <= bytes@.len() && p == pos + 34 && d_meta(bytes@.skip(pos as int))
                == Some((m, bytes@.skip(p as int))),
            None => d_meta(bytes@.skip(pos as int)) is None,
        },
{
    let (pubkey, p0) = match read_key(bytes, pos) {
        None => {
            return None;
        },
        Some(v) => v,
    };
    let (is_signer, p1) = match read_bool(bytes, p0) {
        None => {
            return None;
        },
        Some(v) => v,
    };
    let (is_writable, p2) = match read_bool(bytes, p1) {
        None => {
            return None;
        },
        Some(v) => v,
    };
    Some((MsAccountMeta { pubkey, is_signer, is_writable }, p2))
}

fn read_status(bytes: &Vec<u8>, pos: usize) -> (r: Option<(MsTransactionStatus, usize)>)
    requires
        pos <= bytes@.len(),
    ensures
        match r {
            Some((s, p)) => p <= bytes@.len() && p == pos + 13 && d_status(
                bytes@.skip(pos as int),
            ) == Some((s, bytes@.skip(p as int))),
            None => d_status(bytes@.skip(pos as int)) is None,
        },
{
    if bytes.len() - pos < 13 {
        return None;
    }
    let tag = bytes[pos];
    proof {
        let rem = bytes@.skip(pos as int);
        assert(rem[0] == bytes@[pos as int]);
        assert(rem.skip(13) =~= bytes@.skip(pos as int + 13));
    }
    if tag == 0 {
        Some((MsTransactionStatus::Draft, pos + 13))
    } else if tag == 1 {
        Some((MsTransactionStatus::Active, pos + 13))
    } else if tag == 2 {
        Some((MsTransactionStatus::ExecuteReady, pos + 13))
    } else if tag == 3 {
        Some((MsTransactionStatus::Executed, pos + 13))
    } else if tag == 4 {
        Some((MsTransactionStatus::Rejected, pos + 13))
    } else if tag == 5 {
        Some((MsTransactionStatus::Cancelled, pos + 13))
    } else {
        None
    }
}

fn read_keyvec(bytes: &Vec<u8>, pos: usize) -> (r: Option<(Vec<Pubkey>, usize)>)
    requires
        pos <= bytes@.len(),
    ensures
        match r {
            Some((v, p)) => p <= bytes@.len() && d_keyvec(bytes@.skip(pos as int)) == Some(
                (v@, bytes@.skip(p as int)),
            ),
            None => d_keyvec(bytes@.skip(pos as int)) is None,
        },
{
    let (n, p1) = match read_u32(bytes, pos) {
        None => {
            return None;
        },
        Some(v) => v,
    };
    let count: usize = n as usize;
    let mut acc: Vec<Pubkey> = Vec::new();
    let mut cur: usize = p1;
    let mut i: usize = 0;
    while i < count
        invariant
            i <= count,
            count == n as nat,
            cur <= bytes@.len(),
            acc@.len() == i,
            d_u32(bytes@.skip(pos as int)) == Some((n, bytes@.skip(p1 as int))),
            pos <= bytes@.len(),
            d_keys(bytes@.skip(p1 as int), n as nat) == (match d_keys(
                bytes@.skip(cur as int),
                ((n as nat) - (i as nat)) as nat,
            ) {
                None => None::<(Seq<Pubkey>, Seq<u8>)>,
                Some((s, rest)) => Some((acc@ + s, rest)),
            }),
        decreases count - i,
    {
        let m: Ghost<nat> = Ghost(((n as nat) - (i as nat)) as nat);
        match read_key(bytes, cur) {
            None => {
                proof {
                    assert(m@ > 0);
                    assert(d_keys(bytes@.skip(cur as int), m@) is None);
                }
                return None;
            },
            Some((k, p2)) => {
                proof {
                    assert(m@ > 0);
                    assert(d_keys(bytes@.skip(cur as int), m@) == (match d_keys(
                        bytes@.skip(p2 as int),
                        (m@ - 1) as nat,
                    ) {
                        None => None::<(Seq<Pubkey>, Seq<u8>)>,
                        Some((s, rest)) => Some((seq![k] + s, rest)),
                    }));
                }
                let ghost prev = acc@;
                acc.push(k);
                proof {
                    assert forall|s: Seq<Pubkey>| prev + (seq![k] + s) =~= acc@ + s by {}
                }
                cur = p2;
                i = i + 1;
            },
        }
    }
    proof {
        assert(d_keys(bytes@.skip(cur as int), 0) == Some(
            (Seq::<Pubkey>::empty(), bytes@.skip(cur as int)),
        ));
        assert(acc@ + Seq::<Pubkey>::empty() =~= acc@);
    }
    Some((acc, cur))
}

fn read_metavec(bytes: &Vec<u8>, pos: usize) -> (r: Option<(Vec<MsAccountMeta>, usize)>)
    requires
        pos <= bytes@.len(),
    ensures
        match r {
            Some((v, p)) => p <= bytes@.len() && d_metavec(bytes@.skip(pos as int)) == Some(
                (v@, bytes@.skip(p as int)),
            ),
            None => d_metavec(bytes@.skip(pos as int)) is None,
        },
{
    let (n, p1) = match read_u32(bytes, pos) {
        None => {
            return None;
        },
        Some(v) => v,
    };
    let count: usize = n as usize;
    let mut acc: Vec<MsAccountMeta> = Vec::new();
    let mut cur: usize = p1;
    let mut i: usize = 0;
    while i < count
        invariant
            i <= count,
            count == n as nat,
            cur <= bytes@.len(),
            acc@.len() == i,
            d_u32(bytes@.skip(pos as int)) == Some((n, bytes@.skip(p1 as int))),
            pos <= bytes@.len(),
            d_metas(bytes@.skip(p1 as int), n as nat) == (match d_metas(
                bytes@.skip(cur as int),
                ((n as nat) - (i as nat)) as nat,
            ) {
                None => None::<(Seq<MsAccountMeta>, Seq<u8>)>,
                Some((s, rest)) => Some((acc@ + s, rest)),
            }),
        decreases count - i,
    {
        let m: Ghost<nat> = Ghost(((n as nat) - (i as nat)) as nat);
        match read_meta(bytes, cur) {
            None => {
                proof {
                    assert(m@ > 0);
                    assert(d_metas(bytes@.skip(cur as int), m@) is None);
                }
                return None;
            },
            Some((meta, p2)) => {
                proof {
                    assert(m@ > 0);
                    assert(d_metas(bytes@.skip(cur as int), m@) == (match d_metas(
                        bytes@.skip(p2 as int),
                        (m@ - 1) as nat,
                    ) {
                        None => None::<(Seq<MsAccountMeta>, Seq<u8>)>,
                        Some((s, rest)) => Some((seq![meta] + s, rest)),
                    }));
                }
                let ghost prev = acc@;
                acc.push(meta);
                proof {
                    assert forall|s: Seq<MsAccountMeta>| prev + (seq![meta] + s) =~= acc@ + s by {}
                }
                cur = p2;
                i = i + 1;
            },
        }
    }
    proof {
        assert(d_metas(bytes@.skip(cur as int), 0) == Some(
            (Seq::<MsAccountMeta>::empty(), bytes@.skip(cur as int)),
        ));
        assert(acc@ + Seq::<MsAccountMeta>::empty() =~= acc@);
    }
    Some((acc, cur))
}

fn read_datavec(bytes: &Vec<u8>, pos: usize) -> (r: Option<(Vec<u8>, usize)>)
    requires
        pos <= bytes@.len(),
    ensures
        match r {
            Some((v, p)) => p <= bytes@.len() && d_datavec(bytes@.skip(pos as int)) == Some(
                (v@, bytes@.skip(p as int)),
            ),
            None => d_datavec(bytes@.skip(pos as int)) is None,
        },
{
    let (n, p1) = match read_u32(bytes, pos) {
        None => {
            return None;
        },
        Some(v) => v,
    };
    let count: usize = n as usize;
    if bytes.len() - p1 < count {
        proof {
            assert(bytes@.skip(p1 as int).len() < n as int);
        }
        return None;
    }
    proof {
        assert(bytes@.len() <= usize::MAX);
    }
    let mut acc: Vec<u8> = Vec::new();
    let mut i: usize = 0;
    while i < count
        invariant
            i <= count,
            p1 + count <= bytes@.len(),
            bytes@.len() <= usize::MAX,
            acc@.len() == i,
            acc@ == bytes@.subrange(p1 as int, p1 as int + i),
        decreases count - i,
    {
        acc.push(bytes[p1 + i]);
        proof {
            assert(acc@ =~= bytes@.subrange(p1 as int, p1 as int + i + 1));
        }
        i = i + 1;
    }
    proof {
        let rem = bytes@.skip(p1 as int);
        assert(rem.take(n as int) =~= bytes@.subrange(p1 as int, p1 as int + n as int));
        assert(rem.skip(n as int) =~= bytes@.skip(p1 as int + n as int));
        assert(acc@ == rem.take(n as int));
    }
    Some((acc, p1 + count))
}

/// Parses a multisig record from its exact byte image; `None` on any input
/// that is not one.
pub fn decode_multisig(bytes: &Vec<u8>) -> (r: Option<Ms>)
    ensures
        match r {
            Some(m) => d_ms(bytes@) == Some(m@),
            None => d_ms(bytes@) is None,
        },
{
    proof {
        reveal(d_ms);
    }
    if bytes.len() < 8 {
        return None;
    }
    if bytes[0] != 109 || bytes[1] != 117 || bytes[2] != 108 || bytes[3] != 116 || bytes[4] != 105
        || bytes[5] != 115 || bytes[6] != 105 || bytes[7] != 103 {
        proof {
            assert(bytes@.take(8) != ms_tag()) by {
                if bytes@.take(8) == ms_tag() {
                    assert(bytes@.take(8)[0] == bytes@[0] && bytes@.take(8)[1] == bytes@[1]
                        && bytes@.take(8)[2] == bytes@[2] && bytes@.take(8)[3] == bytes@[3]
                        && bytes@.take(8)[4] == bytes@[4] && bytes@.take(8)[5] == bytes@[5]
                        && bytes@.take(8)[6] == bytes@[6] && bytes@.take(8)[7] == bytes@[7]);
                }
            }
        }
        return None;
    }
    proof {
        assert(bytes@.take(8) =~= ms_tag());
    }
    let (threshold, p0) = match read_u16(bytes, 8) {
        None => {
            return None;
        },
        Some(v) => v,
    };
    let (authority_index, p1) = match read_u16(bytes, p0) {
        None => {
            return None;
        },
        Some(v) => v,
    };
    let (transaction_index, p2) = match read_u32(bytes, p1) {
        None => {
            return None;
        },
        Some(v) => v,
    };
    let (ms_change_index, p3) = match read_u32(bytes, p2) {
        None => {
            return None;
        },
        Some(v) => v,
    };
    let (bump, p4) = match read_u8(bytes, p3) {
        None => {
            return None;
        },
        Some(v) => v,
    };
    let (create_key, p5) = match read_key(bytes, p4) {
        None => {
            return None;
        },
        Some(v) => v,
    };
    let (allow_external_execute, p6) = match read_bool(bytes, p5) {
        None => {
            return None;
        },
        Some(v) => v,
    };
    let (keys, p7) = match read_keyvec(bytes, p6) {
        None => {
            return None;
        },
        Some(v) => v,
    };
    if p7 != bytes.len() {
        return None;
    }
    Some(
        Ms {
            threshold,
            authority_index,
            transaction_index,
            ms_change_index,
            bump,
            create_key,
            allow_external_execute,
            keys,
        },
    )
}

/// Parses a transaction record from its exact byte image; `None` on any
/// input that is not one.
pub fn decode_transaction(bytes: &Vec<u8>) -> (r: Option<MsTransaction>)
    ensures
        match r {
            Some(t) => d_tx(bytes@) == Some(t@),
            None => d_tx(bytes@) is None,
        },
{
    proof {
        reveal(d_tx);
        assert(bytes@.skip(0) =~= bytes@);
    }
    let (creator, p0) = match read_key(bytes, 0) {
        None => {
            return None;
        },
        Some(v) => v,
    };
    let (ms, p1) = match read_key(bytes, p0) {
        None => {
            return None;
        },
        Some(v) => v,
    };
    let (transaction_index, p2) = match read_u32(bytes, p1) {
        None => {
            return None;
        },
        Some(v) => v,
    };
    let (authority_index, p3) = match read_u32(bytes, p2) {
        None => {
            return None;
        },
        Some(v) => v,
    };
    let (authority_bump, p4) = match read_u8(bytes, p3) {
        None => {
            return None;
        },
        Some(v) => v,
    };
    let (status, p5) = match read_status(bytes, p4) {
        None => {
            return None;
        },
        Some(v) => v,
    };
    let (instruction_index, p6) = match read_u8(bytes, p5) {
        None => {
            return None;
        },
        Some(v) => v,
    };
    let (bump, p7) = match read_u8(bytes, p6) {
        None => {
            return None;
        },
        Some(v) => v,
    };
    let (approved, p8) = match read_keyvec(bytes, p7) {
        None => {
            return None;
        },
        Some(v) => v,
    };
    let (rejected, p9) = match read_keyvec(bytes, p8) {
        None => {
            return None;
        },
        Some(v) => v,
    };
    let (cancelled, p10) = match read_keyvec(bytes, p9) {
        None => {
            return None;
        },
        Some(v) => v,
    };
    let (executed_index, p11) = match read_u8(bytes, p10) {
        None => {
            return None;
        },
        Some(v) => v,
    };
    if p11 != bytes.len() {
        return None;
    }
    Some(
        MsTransaction {
            creator,
            ms,
            transaction_index,
            authority_index,
            authority_bump,
            status,
            instruction_index,
            bump,
            approved,
            rejected,
            cancelled,
            executed_index,
        },
    )
}

/// Parses a stored-instruction record from its exact byte image; `None` on
/// any input that is not one.
pub fn decode_instruction(bytes: &Vec<u8>) -> (r: Option<MsInstruction>)
    ensures
        match r {
            Some(ix) => d_ix(bytes@) == Some(ix@),
            None => d_ix(bytes@) is None,
        },
{
    proof {
        reveal(d_ix);
        assert(bytes@.skip(0) =~= bytes@);
    }
    let (program_id, p0) = match read_key(bytes, 0) {
        None => {
            return None;
        },
        Some(v) => v,
    };
    let (keys, p1) = match read_metavec(bytes, p0) {
        None => {
            return None;
        },
        Some(v) => v,
    };
    let (data, p2) = match read_datavec(bytes, p1) {
        None => {
            return None;
        },
        Some(v) => v,
    };
    let (instruction_index, p3) = match read_u8(bytes, p2) {
        None => {
            return None;
        },
        Some(v) => v,
    };
    let (bump, p4) = match read_u8(bytes, p3) {
        None => {
            return None;
        },
        Some(v) => v,
    };
    let (executed, p5) = match read_bool(bytes, p4) {
        None => {
            return None;
        },
        Some(v) => v,
    };
    if p5 != bytes.len() {
        return None;
    }
    Some(MsInstruction { program_id, keys, data, instruction_index, bump, executed })
}

// ------------------------------------------------------------------
// Round trip: decoding an encoded record yields the record back.
// ------------------------------------------------------------------

proof fn lemma_d_u8(x: u8, rest: Seq<u8>)
    ensures
        d_u8(seq![x] + rest) == Some((x, rest)),
{
    let b = seq![x] + rest;
    assert(b[0] == x);
    assert(b.skip(1) =~= rest);
}

proof fn lemma_d_bool(v: bool, rest: Seq<u8>)
    ensures
        d_bool(seq![bool_byte(v)] + rest) == Some((v, rest)),
{
    let b = seq![bool_byte(v)] + rest;
    assert(b[0] == bool_byte(v));
    assert(b.skip(1) =~= rest);
}

proof fn lemma_d_u16(x: u16, rest: Seq<u8>)
    ensures
        d_u16(u16_le(x) + rest) == Some((x, rest)),
{
    let b = u16_le(x) + rest;
    assert(b[0] == (x & 0xff) as u8 && b[1] == ((x >> 8) & 0xff) as u8);
    assert((((x & 0xff) as u8) as u16) | (((((x >> 8) & 0xff) as u8) as u16) << 8) == x)
        by (bit_vector);
    assert(u16_of(b[0], b[1]) == x);
    assert(b.skip(2) =~= rest);
}

proof fn lemma_d_u32(x: u32, rest: Seq<u8>)
    ensures
        d_u32(u32_le(x) + rest) == Some((x, rest)),
{
    let b = u32_le(x) + rest;
    assert(b[0] == (x & 0xff) as u8 && b[1] == ((x >> 8) & 0xff) as u8 && b[2] == ((x >> 16)
        & 0xff) as u8 && b[3] == ((x >> 24) & 0xff) as u8);
    assert((((x & 0xff) as u8) as u32) | (((((x >> 8) & 0xff) as u8) as u32) << 8) | (((((x >> 16)
        & 0xff) as u8) as u32) << 16) | (((((x >> 24) & 0xff) as u8) as u32) << 24) == x)
        by (bit_vector);
    assert(u32_of(b[0], b[1], b[2], b[3]) == x);
    assert(b.skip(4) =~= rest);
}

proof fn lemma_d_u64(x: u64, rest: Seq<u8>)
    ensures
        d_u64(u64_le(x) + rest) == Some((x, rest)),
{
    let b = u64_le(x) + rest;
    assert(b[0] == (x & 0xff) as u8 && b[1] == ((x >> 8) & 0xff) as u8 && b[2] == ((x >> 16)
        & 0xff) as u8 && b[3] == ((x >> 24) & 0xff) as u8 && b[4] == ((x >> 32) & 0xff) as u8
        && b[5] == ((x >> 40) & 0xff) as u8 && b[6] == ((x >> 48) & 0xff) as u8 && b[7] == ((x
        >> 56) & 0xff) as u8);
    assert((((x & 0xff) as u8) as u64) | (((((x >> 8) & 0xff) as u8) as u64) << 8) | (((((x >> 16)
        & 0xff) as u8) as u64) << 16) | (((((x >> 24) & 0xff) as u8) as u64) << 24) | (((((x
        >> 32) & 0xff) as u8) as u64) << 32) | (((((x >> 40) & 0xff) as u8) as u64) << 40)
        | (((((x >> 48) & 0xff) as u8) as u64) << 48) | (((((x >> 56) & 0xff) as u8) as u64)
        << 56) == x) by (bit_vector);
    assert(u64_of(b[0], b[1], b[2], b[3], b[4], b[5], b[6], b[7]) == x);
    assert(b.skip(8) =~= rest);
}

proof fn lemma_d_key(k: Pubkey, rest: Seq<u8>)
    ensures
        d_key(key_bytes(k) + rest) == Some((k, rest)),
{
    let b = key_bytes(k) + rest;
    let r2 = u64_le(k.w2) + (u64_le(k.w3) + rest);
    let r1 = u64_le(k.w1) + r2;
    assert(b =~= u64_le(k.w0) + r1);
    lemma_d_u64(k.w0, r1);
    lemma_d_u64(k.w1, r2);
    lemma_d_u64(k.w2, u64_le(k.w3) + rest);
    lemma_d_u64(k.w3, rest);
}

proof fn lemma_d_meta(m: MsAccountMeta, rest: Seq<u8>)
    ensures
        d_meta(meta_bytes(m) + rest) == Some((m, rest)),
{
    let b = meta_bytes(m) + rest;
    let r1 = seq![bool_byte(m.is_writable)] + rest;
    let r0 = seq![bool_byte(m.is_signer)] + r1;
    assert(b =~= key_bytes(m.pubkey) + r0);
    lemma_d_key(m.pubkey, r0);
    lemma_d_bool(m.is_signer, r1);
    lemma_d_bool(m.is_writable, rest);
}

proof fn lemma_d_status(s: MsTransactionStatus, rest: Seq<u8>)
    ensures
        d_status(status_bytes(s) + rest) == Some((s, rest)),
{
    let b = status_bytes(s) + rest;
    assert(b.len() >= 13);
    assert(b[0] == status_tag(s));
    assert(b.skip(13) =~= rest);
}

#[verifier::rlimit(100)]
proof fn lemma_d_keys(s: Seq<Pubkey>, rest: Seq<u8>)
    ensures
        d_keys(keys_bytes(s) + rest, s.len()) == Some((s, rest)),
    decreases s.len(),
{
    if s.len() == 0 {
        assert(keys_bytes(s) == Seq::<u8>::empty());
        assert(keys_bytes(s) + rest =~= rest);
        assert(d_keys(rest, 0) == Some((Seq::<Pubkey>::empty(), rest)));
        assert(s =~= Seq::<Pubkey>::empty());
    } else {
        let tail = s.skip(1);
        let b = keys_bytes(s) + rest;
        assert(keys_bytes(s) == key_bytes(s[0]) + keys_bytes(tail));
        assert(b =~= key_bytes(s[0]) + (keys_bytes(tail) + rest));
        lemma_d_key(s[0], keys_bytes(tail) + rest);
        lemma_d_keys(tail, rest);
        assert(seq![s[0]] + tail =~= s);
    }
}

#[verifier::rlimit(100)]
proof fn lemma_d_metas(s: Seq<MsAccountMeta>, rest: Seq<u8>)
    ensures
        d_metas(metas_bytes(s) + rest, s.len()) == Some((s, rest)),
    decreases s.len(),
{
    if s.len() == 0 {
        assert(metas_bytes(s) == Seq::<u8>::empty());
        assert(metas_bytes(s) + rest =~= rest);
        assert(d_metas(rest, 0) == Some((Seq::<MsAccountMeta>::empty(), rest)));
        assert(s =~= Seq::<MsAccountMeta>::empty());
    } else {
        let tail = s.skip(1);
        let b = metas_bytes(s) + rest;
        assert(metas_bytes(s) == meta_bytes(s[0]) + metas_bytes(tail));
        assert(b =~= meta_bytes(s[0]) + (metas_bytes(tail) + rest));
        lemma_d_meta(s[0], metas_bytes(tail) + rest);
        lemma_d_metas(tail, rest);
        assert(seq![s[0]] + tail =~= s);
    }
}

proof fn lemma_d_keyvec(s: Seq<Pubkey>, rest: Seq<u8>)
    requires
        s.len() <= u32::MAX,
    ensures
        d_keyvec(keyvec_bytes(s) + rest) == Some((s, rest)),
{
    let n: u32 = s.len() as u32;
    let b = keyvec_bytes(s) + rest;
    assert(b =~= u32_le(n) + (keys_bytes(s) + rest));
    lemma_d_u32(n, keys_bytes(s) + rest);
    assert(n as nat == s.len());
    lemma_d_keys(s, rest);
}

proof fn lemma_d_metavec(s: Seq<MsAccountMeta>, rest: Seq<u8>)
    requires
        s.len() <= u32::MAX,
    ensures
        d_metavec(metavec_bytes(s) + rest) == Some((s, rest)),
{
    let n: u32 = s.len() as u32;
    let b = metavec_bytes(s) + rest;
    assert(b =~= u32_le(n) + (metas_bytes(s) + rest));
    lemma_d_u32(n, metas_bytes(s) + rest);
    assert(n as nat == s.len());
    lemma_d_metas(s, rest);
}

proof fn lemma_d_datavec(d: Seq<u8>, rest: Seq<u8>)
    requires
        d.len() <= u32::MAX,
    ensures
        d_datavec(datavec_bytes(d) + rest) == Some((d, rest)),
{
    let n: u32 = d.len() as u32;
    let b = datavec_bytes(d) + rest;
    assert(b =~= u32_le(n) + (d + rest));
    lemma_d_u32(n, d + rest);
    assert(n as nat == d.len());
    assert((d + rest).take(n as int) =~= d);
    assert((d + rest).skip(n as int) =~= rest);
}

/// Round trip for the multisig record: decoding the encoding of any
/// multisig state yields that state back, byte-identically in structure.
#[verifier::rlimit(100)]
pub proof fn lemma_multisig_round_trip(v: MsView)
    requires
        v.keys.len() <= u32::MAX,
    ensures
        d_ms(ms_record_bytes(v)) == Some(v),
{
    let r6 = keyvec_bytes(v.keys);
    let r5 = seq![bool_byte(v.allow_external_execute)] + r6;
    let r4 = key_bytes(v.create_key) + r5;
    let r3 = seq![v.bump] + r4;
    let r2 = u32_le(v.ms_change_index) + r3;
    let r1 = u32_le(v.transaction_index) + r2;
    let r0 = u16_le(v.authority_index) + r1;
    let rr = u16_le(v.threshold) + r0;
    reveal(ms_record_bytes);
    reveal(d_ms);
    let b = ms_record_bytes(v);
    assert(b == ms_tag() + rr);
    assert(b.take(8) =~= ms_tag());
    assert(b.skip(8) =~= rr);
    lemma_d_u16(v.threshold, r0);
    lemma_d_u16(v.authority_index, r1);
    lemma_d_u32(v.transaction_index, r2);
    lemma_d_u32(v.ms_change_index, r3);
    lemma_d_u8(v.bump, r4);
    lemma_d_key(v.create_key, r5);
    lemma_d_bool(v.allow_external_execute, r6);
    assert(r6 =~= keyvec_bytes(v.keys) + Seq::<u8>::empty());
    lemma_d_keyvec(v.keys, Seq::empty());
}

/// Round trip for the transaction record.
#[verifier::rlimit(100)]
pub proof fn lemma_transaction_round_trip(v: TxView)
    requires
        v.approved.len() <= u32::MAX,
        v.rejected.len() <= u32::MAX,
        v.cancelled.len() <= u32::MAX,
    ensures
        d_tx(tx_record_bytes(v)) == Some(v),
{
    let r10 = seq![v.executed_index];
    let r9 = keyvec_bytes(v.cancelled) + r10;
    let r8 = keyvec_bytes(v.rejected) + r9;
    let r7 = keyvec_bytes(v.approved) + r8;
    let r6 = seq![v.bump] + r7;
    let r5 = seq![v.instruction_index] + r6;
    let r4 = status_bytes(v.status) + r5;
    let r3 = seq![v.authority_bump] + r4;
    let r2 = u32_le(v.authority_index) + r3;
    let r1 = u32_le(v.transaction_index) + r2;
    let r0 = key_bytes(v.ms) + r1;
    reveal(tx_record_bytes);
    reveal(d_tx);
    let b = tx_record_bytes(v);
    assert(b == key_bytes(v.creator) + r0);
    lemma_d_key(v.creator, r0);
    lemma_d_key(v.ms, r1);
    lemma_d_u32(v.transaction_index, r2);
    lemma_d_u32(v.authority_index, r3);
    lemma_d_u8(v.authority_bump, r4);
    lemma_d_status(v.status, r5);
    lemma_d_u8(v.instruction_index, r6);
    lemma_d_u8(v.bump, r7);
    lemma_d_keyvec(v.approved, r8);
    lemma_d_keyvec(v.rejected, r9);
    lemma_d_keyvec(v.cancelled, r10);
    assert(r10 =~= seq![v.executed_index] + Seq::<u8>::empty());
    lemma_d_u8(v.executed_index, Seq::empty());
}

/// Round trip for the stored-instruction record.
pub proof fn lemma_instruction_round_trip(v: IxView)
    requires
        v.keys.len() <= u32::MAX,
        v.data.len() <= u32::MAX,
    ensures
        d_ix(ix_record_bytes(v)) == Some(v),
{
    let r4 = seq![bool_byte(v.executed)];
    let r3 = seq![v.bump] + r4;
    let r2 = seq![v.instruction_index] + r3;
    let r1 = datavec_bytes(v.data) + r2;
    let r0 = metavec_bytes(v.keys) + r1;
    reveal(ix_record_bytes);
    reveal(d_ix);
    let b = ix_record_bytes(v);
    assert(b == key_bytes(v.program_id) + r0);
    lemma_d_key(v.program_id, r0);
    lemma_d_metavec(v.keys, r1);
    lemma_d_datavec(v.data, r2);
    lemma_d_u8(v.instruction_index, r3);
    lemma_d_u8(v.bump, r4);
    assert(r4 =~= seq![bool_byte(v.executed)] + Seq::<u8>::empty());
    lemma_d_bool(v.executed, Seq::empty());
}

// ------------------------------------------------------------------
// Size accounting: the byte images have exactly the sizes the size
// functions of the record types account for.
// ------------------------------------------------------------------

/// A key ledger's image is exactly 32 bytes per key.
pub proof fn lemma_keys_bytes_len(s: Seq<Pubkey>)
    ensures
        keys_bytes(s).len() == 32 * s.len(),
    decreases s.len(),
{
    if s.len() > 0 {
        lemma_keys_bytes_len(s.skip(1));
    }
}

/// An account-triple list's image is exactly 34 bytes per entry.
pub proof fn lemma_metas_bytes_len(s: Seq<MsAccountMeta>)
    ensures
        metas_bytes(s).len() == 34 * s.len(),
    decreases s.len(),
{
    if s.len() > 0 {
        lemma_metas_bytes_len(s.skip(1));
    }
}

/// The multisig image is exactly `SIZE_WITHOUT_MEMBERS` plus 32 bytes per
/// member.
pub proof fn lemma_multisig_encoded_size(v: MsView)
    ensures
        ms_record_bytes(v).len() == SIZE_WITHOUT_MEMBERS + 32 * v.keys.len(),
{
    reveal(ms_record_bytes);
    lemma_keys_bytes_len(v.keys);
}

/// The transaction image is exactly `MINIMUM_SIZE` plus three vote-ledger
/// length prefixes plus 32 bytes per recorded vote.
pub proof fn lemma_transaction_encoded_size(v: TxView)
    ensures
        tx_record_bytes(v).len() == MINIMUM_SIZE + 12 + 32 * (v.approved.len() + v.rejected.len()
            + v.cancelled.len()),
{
    reveal(tx_record_bytes);
    lemma_keys_bytes_len(v.approved);
    lemma_keys_bytes_len(v.rejected);
    lemma_keys_bytes_len(v.cancelled);
}

/// A transaction whose vote ledgers each hold at most `n` keys never
/// outgrows the allocation `initial_size_with_members(n)` accounts for.
pub proof fn lemma_transaction_size_bound(v: TxView, n: nat)
    requires
        v.approved.len() <= n,
        v.rejected.len() <= n,
        v.cancelled.len() <= n,
    ensures
        tx_record_bytes(v).len() <= MINIMUM_SIZE + 3 * (4 + n * 32),
{
    lemma_transaction_encoded_size(v);
}

/// The size query of an incoming instruction is exact: the stored record
/// built from it occupies exactly the computed footprint, whatever attach
/// position and bump it is stored under.
pub proof fn lemma_instruction_size_exact(inc: IncomingView, v: IxView)
    requires
        v.keys == inc.keys,
        v.data == inc.data,
    ensures
        ix_record_bytes(v).len() == spec_packed_len(inc) + 3,
{
    reveal(ix_record_bytes);
    lemma_metas_bytes_len(v.keys);
}

} // verus!
