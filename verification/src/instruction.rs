use vstd::prelude::*;

use crate::error::MsError;
use crate::key::Pubkey;

verus! {

/// Retired client-side cap on instruction record size; kept for reference.
pub const MAXIMUM_SIZE: usize = 1280;

/// One account the deferred call touches, with its permission shape. The
/// same triple shape the execution layer consumes.
#[derive(Clone, Copy, Debug, PartialEq, Eq, Structural)]
pub struct MsAccountMeta {
    pub pubkey: Pubkey,
    pub is_signer: bool,
    pub is_writable: bool,
}

/// An incoming instruction as handed to attach: the native call shape — a
/// target program, ordered permission triples, and an opaque payload.
pub struct IncomingInstruction {
    pub program_id: Pubkey,
    pub keys: Vec<MsAccountMeta>,
    pub data: Vec<u8>,
}

/// The mathematical model of an incoming instruction.
pub ghost struct IncomingView {
    pub program_id: Pubkey,
    pub keys: Seq<MsAccountMeta>,
    pub data: Seq<u8>,
}

impl View for IncomingInstruction {
    type V = IncomingView;

    open spec fn view(&self) -> IncomingView {
        IncomingView { program_id: self.program_id, keys: self.keys@, data: self.data@ }
    }
}

/// Serialized footprint of an incoming instruction: the program id, the
/// length-prefixed account triples (34 bytes each), and the length-prefixed
/// payload.
pub open spec fn spec_packed_len(v: IncomingView) -> int {
    32 + 4 + 34 * (v.keys.len() as int) + 4 + (v.data.len() as int)
}

impl IncomingInstruction {
    /// Exact space a stored instruction record built from this incoming
    /// instruction occupies: the packed fields plus 3 bytes of per-record
    /// overhead (attach position, bump, and the legacy executed flag). Exact
    /// rather than an upper bound, so the storage layer never
    /// under-allocates.
    pub fn get_max_size(&self) -> (r: usize)
        requires
            34 * self@.keys.len() + self@.data.len() + 43 <= usize::MAX,
        ensures
            r == spec_packed_len(self@) + 3,
    {
        32 + 4 + 34 * self.keys.len() + 4 + self.data.len() + 3
    }
}

/// The stored record for an instruction attached to a transaction: the
/// native call shape plus the attach bookkeeping.
pub struct MsInstruction {
    /// Target of the deferred call; opaque to this core.
    pub program_id: Pubkey,
    /// Ordered account/permission triples of the call.
    pub keys: Vec<MsAccountMeta>,
    /// Opaque byte payload of the call.
    pub data: Vec<u8>,
    /// Position within the owning transaction's execution sequence.
    pub instruction_index: u8,
    /// Derivation bump of the record's storage address.
    pub bump: u8,
    /// Retired flag superseded by the transaction's `executed_index`; never
    /// set by this core.
    pub executed: bool,
}

/// The mathematical model of a stored instruction record.
pub ghost struct IxView {
    pub program_id: Pubkey,
    pub keys: Seq<MsAccountMeta>,
    pub data: Seq<u8>,
    pub instruction_index: u8,
    pub bump: u8,
    pub executed: bool,
}

impl View for MsInstruction {
    type V = IxView;

    open spec fn view(&self) -> IxView {
        IxView {
            program_id: self.program_id,
            keys: self.keys@,
            data: self.data@,
            instruction_index: self.instruction_index,
            bump: self.bump,
            executed: self.executed,
        }
    }
}

impl MsInstruction {
    /// Initializes the record at attach position `instruction_index`,
    /// copying program id, account triples and payload verbatim from the
    /// incoming instruction. No validation of the call's contents: semantic
    /// validity is the execution layer's concern.
    pub fn init(
        &mut self,
        instruction_index: u8,
        incoming_instruction: IncomingInstruction,
        bump: u8,
    ) -> (r: Result<(), MsError>)
        ensures
            r is Ok,
            final(self)@ == (IxView {
                program_id: incoming_instruction@.program_id,
                keys: incoming_instruction@.keys,
                data: incoming_instruction@.data,
                instruction_index,
                bump,
                executed: false,
            }),
    {
        self.bump = bump;
        self.instruction_index = instruction_index;
        self.program_id = incoming_instruction.program_id;
        self.keys = incoming_instruction.keys;
        self.data = incoming_instruction.data;
        self.executed = false;
        Ok(())
    }

    /// The read-only native call view the execution layer dispatches:
    /// program id, ordered permission triples, and payload, copied
    /// losslessly from the record.
    pub fn native_call(&self) -> (r: IncomingInstruction)
        ensures
            r@.program_id == self@.program_id,
            r@.keys == self@.keys,
            r@.data == self@.data,
    {
        let mut keys: Vec<MsAccountMeta> = Vec::new();
        let mut i: usize = 0;
        while i < self.keys.len()
            invariant
                i <= self.keys@.len(),
                keys@ == self.keys@.take(i as int),
            decreases self.keys@.len() - i,
        {
            keys.push(self.keys[i]);
            proof {
                assert(keys@ =~= self.keys@.take(i as int + 1));
            }
            i = i + 1;
        }
        let mut data: Vec<u8> = Vec::new();
        let mut j: usize = 0;
        while j < self.data.len()
            invariant
                j <= self.data@.len(),
                data@ == self.data@.take(j as int),
            decreases self.data@.len() - j,
        {
            data.push(self.data[j]);
            proof {
                assert(data@ =~= self.data@.take(j as int + 1));
            }
            j = j + 1;
        }
        proof {
            assert(self.keys@.take(self.keys@.len() as int) =~= self.keys@);
            assert(self.data@.take(self.data@.len() as int) =~= self.data@);
        }
        IncomingInstruction { program_id: self.program_id, keys, data }
    }
}

} // verus!
