use vstd::prelude::*;
use vstd::bytes::*;
use crate::codec::{read_u16, read_u64};
use crate::error::MultisigError;

verus! {

/// The operation selected by the leading byte of a payload.
#[derive(Clone, Copy, Debug, PartialEq, Eq, Structural)]
pub enum MultisigInstructions {
    InitMultisig,
    CreateProposal,
    Vote,
    CloseProposal,
    CreateTransaction,
}

/// The operation that an opcode selects, if any.
pub open spec fn spec_instruction(op: u8) -> Option<MultisigInstructions> {
    if op == 0 {
        Some(MultisigInstructions::InitMultisig)
    } else if op == 2 {
        Some(MultisigInstructions::CreateProposal)
    } else if op == 3 {
        Some(MultisigInstructions::Vote)
    } else if op == 4 {
        Some(MultisigInstructions::CloseProposal)
    } else if op == 5 {
        Some(MultisigInstructions::CreateTransaction)
    } else {
        None
    }
}

impl MultisigInstructions {
    /// Decodes an opcode.
    pub fn try_from(value: &u8) -> (r: Result<MultisigInstructions, MultisigError>)
        ensures
            r == (match spec_instruction(*value) {
                Some(i) => Ok(i),
                None => Err(MultisigError::InvalidData),
            }),
    {
        match *value {
            0 => Ok(MultisigInstructions::InitMultisig),
            2 => Ok(MultisigInstructions::CreateProposal),
            3 => Ok(MultisigInstructions::Vote),
            4 => Ok(MultisigInstructions::CloseProposal),
            5 => Ok(MultisigInstructions::CreateTransaction),
            _ => Err(MultisigError::InvalidData),
        }
    }
}

/// Payload of the group initialization.
#[derive(Clone, Copy, Debug, PartialEq, Eq, Structural)]
pub struct InitMultisigIxData {
    pub max_expiry: u64,
    pub primary_seed: u16,
    pub min_threshold: u8,
    pub num_members: u8,
    pub num_admins: u8,
}

impl InitMultisigIxData {
    /// Payload width: the fields and three bytes of alignment filler.
    pub const LEN: usize = 16;

    pub open spec fn spec_from_bytes(b: Seq<u8>) -> InitMultisigIxData {
        InitMultisigIxData {
            max_expiry: spec_u64_from_le_bytes(b.subrange(0, 8)),
            primary_seed: spec_u16_from_le_bytes(b.subrange(8, 10)),
            min_threshold: b[10],
            num_members: b[11],
            num_admins: b[12],
        }
    }

    /// Decodes a payload of exactly `LEN` bytes.
    pub fn from_bytes(data: &[u8]) -> (r: Result<InitMultisigIxData, MultisigError>)
        ensures
            r == (if data@.len() == Self::LEN {
                Ok(Self::spec_from_bytes(data@))
            } else {
                Err(MultisigError::InvalidData)
            }),
    {
        if data.len() != Self::LEN {
            return Err(MultisigError::InvalidData);
        }
        Ok(InitMultisigIxData {
            max_expiry: read_u64(data, 0),
            primary_seed: read_u16(data, 8),
            min_threshold: data[10],
            num_members: data[11],
            num_admins: data[12],
        })
    }
}

/// Payload of the proposal creation.
#[derive(Clone, Copy, Debug, PartialEq, Eq, Structural)]
pub struct CreateProposalIxData {
    pub expiry: u64,
    pub primary_seed: u16,
}

impl CreateProposalIxData {
    /// Payload width: the fields and six bytes of alignment filler.
    pub const LEN: usize = 16;

    pub open spec fn spec_from_bytes(b: Seq<u8>) -> CreateProposalIxData {
        CreateProposalIxData {
            expiry: spec_u64_from_le_bytes(b.subrange(0, 8)),
            primary_seed: spec_u16_from_le_bytes(b.subrange(8, 10)),
        }
    }

    /// Decodes a payload of exactly `LEN` bytes.
    pub fn from_bytes(data: &[u8]) -> (r: Result<CreateProposalIxData, MultisigError>)
        ensures
            r == (if data@.len() == Self::LEN {
                Ok(Self::spec_from_bytes(data@))
            } else {
                Err(MultisigError::InvalidData)
            }),
    {
        if data.len() != Self::LEN {
            return Err(MultisigError::InvalidData);
        }
        Ok(CreateProposalIxData { expiry: read_u64(data, 0), primary_seed: read_u16(data, 8) })
    }
}

/// Payload of a vote.
#[derive(Clone, Copy, Debug, PartialEq, Eq, Structural)]
pub struct VoteIxData {
    pub multisig_bump: u8,
    pub proposal_bump: u8,
    /// 1 for "yes"; any other value is "no".
    pub vote: u8,
}

impl VoteIxData {
    pub const LEN: usize = 3;

    /// Decodes the first `LEN` bytes of `data`.
    pub fn from_bytes(data: &[u8]) -> (r: Result<VoteIxData, MultisigError>)
        ensures
            r == (if data@.len() < Self::LEN {
                Err(MultisigError::InvalidData)
            } else {
                Ok(VoteIxData { multisig_bump: data@[0], proposal_bump: data@[1], vote: data@[2] })
            }),
    {
        if data.len() < Self::LEN {
            return Err(MultisigError::InvalidData);
        }
        Ok(VoteIxData { multisig_bump: data[0], proposal_bump: data[1], vote: data[2] })
    }

    /// Encodes the payload; it always succeeds.
    pub fn to_bytes(&self) -> (r: Result<[u8; 3], MultisigError>)
        ensures
            r is Ok,
            r->Ok_0@ == seq![self.multisig_bump, self.proposal_bump, self.vote],
    {
        let bytes: [u8; 3] = [self.multisig_bump, self.proposal_bump, self.vote];
        assert(bytes@ =~= seq![self.multisig_bump, self.proposal_bump, self.vote]);
        Ok(bytes)
    }
}

/// Payload of a member update: an operation (1 adds, 2 removes) and the
/// identity, followed by the role byte when adding.
#[derive(Clone, Copy, Debug)]
pub struct UpdateMemberIxData {
    pub operation: u8,
    pub member_data: [u8; 33],
}

impl UpdateMemberIxData {
    pub const LEN: usize = 34;

    /// Decodes a payload of exactly `LEN` bytes.
    pub fn from_bytes(data: &[u8]) -> (r: Result<UpdateMemberIxData, MultisigError>)
        ensures
            data@.len() != Self::LEN ==> r == Err::<UpdateMemberIxData, MultisigError>(
                MultisigError::InvalidData,
            ),
            data@.len() == Self::LEN ==> r is Ok && r->Ok_0.operation == data@[0]
                && r->Ok_0.member_data@ == data@.subrange(1, 34),
    {
        if data.len() != Self::LEN {
            return Err(MultisigError::InvalidData);
        }
        let mut member_data: [u8; 33] = [0u8; 33];
        let mut i: usize = 0;
        while i < 33
            invariant
                i <= 33,
                data@.len() == Self::LEN,
                forall|j: int| 0 <= j < i ==> member_data@[j] == data@[1 + j],
            decreases 33 - i,
        {
            member_data[i] = data[1 + i];
            i += 1;
        }
        assert(member_data@ =~= data@.subrange(1, 34));
        Ok(UpdateMemberIxData { operation: data[0], member_data })
    }
}

/// Payload of a group configuration update.
#[derive(Clone, Copy, Debug, PartialEq, Eq, Structural)]
pub struct UpdateMultisigIxData {
    /// The new spending limit or stale transaction index.
    pub value: u64,
    /// 1 sets the threshold, 2 the spending limit, 3 the stale transaction index.
    pub update_type: u8,
    /// The new threshold.
    pub threshold: u8,
}

impl UpdateMultisigIxData {
    /// Payload width: the fields and six bytes of alignment filler.
    pub const LEN: usize = 16;

    pub open spec fn spec_from_bytes(b: Seq<u8>) -> UpdateMultisigIxData {
        UpdateMultisigIxData {
            value: spec_u64_from_le_bytes(b.subrange(0, 8)),
            update_type: b[8],
            threshold: b[9],
        }
    }

    /// Decodes a payload of exactly `LEN` bytes.
    pub fn from_bytes(data: &[u8]) -> (r: Result<UpdateMultisigIxData, MultisigError>)
        ensures
            r == (if data@.len() == Self::LEN {
                Ok(Self::spec_from_bytes(data@))
            } else {
                Err(MultisigError::InvalidData)
            }),
    {
        if data.len() != Self::LEN {
            return Err(MultisigError::InvalidData);
        }
        Ok(UpdateMultisigIxData { value: read_u64(data, 0), update_type: data[8], threshold: data[9] })
    }
}

/// Payload of a transaction buffer creation.
#[derive(Clone, Copy, Debug)]
pub struct CreateTransactionIxData {
    pub transaction_index: u64,
    pub tx_buffer: [u8; 512],
    pub buffer_size: u16,
}

impl CreateTransactionIxData {
    /// Payload width: the fields and six bytes of alignment filler.
    pub const LEN: usize = 528;

    /// Decodes a payload of exactly `LEN` bytes.
    pub fn from_bytes(data: &[u8]) -> (r: Result<CreateTransactionIxData, MultisigError>)
        ensures
            data@.len() != Self::LEN ==> r == Err::<CreateTransactionIxData, MultisigError>(
                MultisigError::InvalidData,
            ),
            data@.len() == Self::LEN ==> r is Ok && r->Ok_0.transaction_index
                == spec_u64_from_le_bytes(data@.subrange(0, 8)) && r->Ok_0.tx_buffer@
                == data@.subrange(8, 520) && r->Ok_0.buffer_size == spec_u16_from_le_bytes(
                data@.subrange(520, 522),
            ),
    {
        if data.len() != Self::LEN {
            return Err(MultisigError::InvalidData);
        }
        let mut tx_buffer: [u8; 512] = [0u8; 512];
        let mut i: usize = 0;
        while i < 512
            invariant
                i <= 512,
                data@.len() == Self::LEN,
                forall|j: int| 0 <= j < i ==> tx_buffer@[j] == data@[8 + j],
            decreases 512 - i,
        {
            tx_buffer[i] = data[8 + i];
            i += 1;
        }
        assert(tx_buffer@ =~= data@.subrange(8, 520));
        Ok(CreateTransactionIxData {
            transaction_index: read_u64(data, 0),
            tx_buffer,
            buffer_size: read_u16(data, 520),
        })
    }
}

} // verus!
