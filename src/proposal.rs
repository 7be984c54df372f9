use vstd::prelude::*;
use vstd::bytes::*;
use crate::codec::{array_from, lemma_array_from, push_bytes, push_u16, push_u64, read_array, read_u16, read_u64};
use crate::error::MultisigError;

verus! {

/// Where a proposal stands.
#[derive(Clone, Copy, Debug, PartialEq, Eq, Structural)]
pub enum ProposalStatus {
    Draft,
    Active,
    Failed,
    Succeeded,
    Cancelled,
}

/// The status that a status byte names, if any.
pub open spec fn spec_status(b: u8) -> Option<ProposalStatus> {
    if b == 0 {
        Some(ProposalStatus::Draft)
    } else if b == 1 {
        Some(ProposalStatus::Active)
    } else if b == 2 {
        Some(ProposalStatus::Failed)
    } else if b == 3 {
        Some(ProposalStatus::Succeeded)
    } else if b == 4 {
        Some(ProposalStatus::Cancelled)
    } else {
        None
    }
}

impl ProposalStatus {
    pub open spec fn spec_to_u8(self) -> u8 {
        match self {
            ProposalStatus::Draft => 0,
            ProposalStatus::Active => 1,
            ProposalStatus::Failed => 2,
            ProposalStatus::Succeeded => 3,
            ProposalStatus::Cancelled => 4,
        }
    }

    /// The status byte.
    pub fn to_u8(&self) -> (r: u8)
        ensures
            r == self.spec_to_u8(),
    {
        match self {
            ProposalStatus::Draft => 0,
            ProposalStatus::Active => 1,
            ProposalStatus::Failed => 2,
            ProposalStatus::Succeeded => 3,
            ProposalStatus::Cancelled => 4,
        }
    }

    /// Decodes a status byte.
    pub fn try_from(value: &u8) -> (r: Result<ProposalStatus, MultisigError>)
        ensures
            r == (match spec_status(*value) {
                Some(s) => Ok(s),
                None => Err(MultisigError::InvalidData),
            }),
    {
        match *value {
            0 => Ok(ProposalStatus::Draft),
            1 => Ok(ProposalStatus::Active),
            2 => Ok(ProposalStatus::Failed),
            3 => Ok(ProposalStatus::Succeeded),
            4 => Ok(ProposalStatus::Cancelled),
            _ => Err(MultisigError::InvalidData),
        }
    }
}

/// The fixed header of a proposal record. The voter array follows it.
#[derive(Clone, Copy, Debug)]
pub struct ProposalState {
    /// The sub-seed of the proposal's address.
    pub proposal_id: u16,
    pub expiry: u64,
    pub created_time: u64,
    pub status: ProposalStatus,
    pub bump: u8,
    /// Length of the leading "yes" part of the voter array.
    pub yes_votes: u8,
    /// Length of the trailing "no" part of the voter array.
    pub no_votes: u8,
    pub _padding: [u8; 4],
}

impl ProposalState {
    /// Width of the header in a record.
    pub const LEN: usize = 32;

    /// The header's bytes: packed fields, then zeros up to `LEN`.
    pub open spec fn spec_bytes(self) -> Seq<u8> {
        spec_u16_to_le_bytes(self.proposal_id) + spec_u64_to_le_bytes(self.expiry)
            + spec_u64_to_le_bytes(self.created_time) + seq![
            self.status.spec_to_u8(),
            self.bump,
            self.yes_votes,
            self.no_votes,
        ] + self._padding@ + Seq::new(6, |_i: int| 0u8)
    }

    /// Whether the first `LEN` bytes of `b` hold a header.
    pub open spec fn spec_decodable(b: Seq<u8>) -> bool {
        b.len() >= Self::LEN && spec_status(b[18]) is Some
    }

    /// The header that the first `LEN` bytes of `b` hold.
    pub open spec fn spec_from_bytes(b: Seq<u8>) -> ProposalState {
        ProposalState {
            proposal_id: spec_u16_from_le_bytes(b.subrange(0, 2)),
            expiry: spec_u64_from_le_bytes(b.subrange(2, 10)),
            created_time: spec_u64_from_le_bytes(b.subrange(10, 18)),
            status: spec_status(b[18])->Some_0,
            bump: b[19],
            yes_votes: b[20],
            no_votes: b[21],
            _padding: array_from::<4>(b.subrange(22, 26)),
        }
    }

    /// Decoding an encoded header gives the header back.
    pub proof fn lemma_round_trip(self)
        ensures
            self.spec_bytes().len() == Self::LEN,
            Self::spec_decodable(self.spec_bytes()),
            Self::spec_from_bytes(self.spec_bytes()) == self,
    {
        lemma_auto_spec_u64_to_from_le_bytes();
        lemma_auto_spec_u16_to_from_le_bytes();
        let b = self.spec_bytes();
        assert(b.subrange(0, 2) =~= spec_u16_to_le_bytes(self.proposal_id));
        assert(b.subrange(2, 10) =~= spec_u64_to_le_bytes(self.expiry));
        assert(b.subrange(10, 18) =~= spec_u64_to_le_bytes(self.created_time));
        assert(b.subrange(22, 26) =~= self._padding@);
        lemma_array_from(self._padding);
    }

    /// Encodes the header.
    pub fn to_bytes(&self) -> (r: Vec<u8>)
        ensures
            r@ == self.spec_bytes(),
            r@.len() == Self::LEN,
    {
        let mut out: Vec<u8> = Vec::new();
        push_u16(&mut out, self.proposal_id);
        push_u64(&mut out, self.expiry);
        push_u64(&mut out, self.created_time);
        out.push(self.status.to_u8());
        out.push(self.bump);
        out.push(self.yes_votes);
        out.push(self.no_votes);
        push_bytes(&mut out, &self._padding);
        let mut i: usize = 0;
        while i < 6
            invariant
                i <= 6,
                out@ == spec_u16_to_le_bytes(self.proposal_id) + spec_u64_to_le_bytes(self.expiry)
                    + spec_u64_to_le_bytes(self.created_time) + seq![
                    self.status.spec_to_u8(),
                    self.bump,
                    self.yes_votes,
                    self.no_votes,
                ] + self._padding@ + Seq::new(i as nat, |_i: int| 0u8),
            decreases 6 - i,
        {
            out.push(0u8);
            i += 1;
            assert(out@ =~= spec_u16_to_le_bytes(self.proposal_id) + spec_u64_to_le_bytes(
                self.expiry,
            ) + spec_u64_to_le_bytes(self.created_time) + seq![
                self.status.spec_to_u8(),
                self.bump,
                self.yes_votes,
                self.no_votes,
            ] + self._padding@ + Seq::new(i as nat, |_i: int| 0u8));
        }
        proof {
            lemma_auto_spec_u64_to_from_le_bytes();
            lemma_auto_spec_u16_to_from_le_bytes();
        }
        out
    }

    /// Decodes the header at the front of `bytes`.
    pub fn from_bytes(bytes: &[u8]) -> (r: Result<ProposalState, MultisigError>)
        ensures
            r == (if Self::spec_decodable(bytes@) {
                Ok(Self::spec_from_bytes(bytes@))
            } else {
                Err(MultisigError::InvalidData)
            }),
    {
        if bytes.len() < Self::LEN {
            return Err(MultisigError::InvalidData);
        }
        let status = ProposalStatus::try_from(&bytes[18])?;
        let _padding: [u8; 4] = read_array(bytes, 22);
        proof {
            lemma_array_from(_padding);
        }
        Ok(ProposalState {
            proposal_id: read_u16(bytes, 0),
            expiry: read_u64(bytes, 2),
            created_time: read_u64(bytes, 10),
            status,
            bump: bytes[19],
            yes_votes: bytes[20],
            no_votes: bytes[21],
            _padding,
        })
    }

    /// Sets the identifying fields of a fresh proposal; the vote counts stay.
    pub fn new(
        &mut self,
        proposal_id: u16,
        expiry: u64,
        status: ProposalStatus,
        bump: u8,
        created_time: u64,
    )
        ensures
            *final(self) == (ProposalState {
                proposal_id,
                expiry,
                created_time,
                status,
                bump,
                ..*old(self)
            }),
    {
        self.proposal_id = proposal_id;
        self.expiry = expiry;
        self.created_time = created_time;
        self.status = status;
        self.bump = bump;
    }
}

} // verus!
