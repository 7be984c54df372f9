use vstd::prelude::*;
use vstd::bytes::*;
use crate::codec::{key_from, lemma_key_from, push_bytes, push_u16, push_u64, read_key, read_u16, read_u64, Pubkey};
use crate::error::MultisigError;
use crate::instructions::InitMultisigIxData;

verus! {

/// The fixed header of a group record. The member array follows it.
#[derive(Clone, Copy, Debug)]
pub struct MultisigState {
    pub seed: u64,
    /// Admin spending limit.
    pub admin_spending_limit: u64,
    /// Maximum lifetime of a proposal.
    pub max_expiry: u64,
    /// Index of the last transaction executed.
    pub transaction_index: u64,
    /// All transactions up to this index are stale.
    pub stale_transaction_index: u64,
    pub primary_seed: u16,
    pub admin: Pubkey,
    pub treasury: Pubkey,
    pub treasury_bump: u8,
    pub bump: u8,
    /// Votes needed to carry a proposal.
    pub min_threshold: u8,
    /// Length of the member array.
    pub num_members: u8,
    pub members_counter: u8,
    /// Number of admins: they occupy the front of the member array.
    pub admin_counter: u8,
}

impl MultisigState {
    /// Width of the encoded header.
    pub const LEN: usize = 112;

    /// The header's bytes, fields in declaration order, integers little-endian.
    pub open spec fn spec_bytes(self) -> Seq<u8> {
        spec_u64_to_le_bytes(self.seed) + spec_u64_to_le_bytes(self.admin_spending_limit)
            + spec_u64_to_le_bytes(self.max_expiry) + spec_u64_to_le_bytes(self.transaction_index)
            + spec_u64_to_le_bytes(self.stale_transaction_index) + spec_u16_to_le_bytes(
            self.primary_seed,
        ) + self.admin@ + self.treasury@ + seq![
            self.treasury_bump,
            self.bump,
            self.min_threshold,
            self.num_members,
            self.members_counter,
            self.admin_counter,
        ]
    }

    /// The header that the first `LEN` bytes of `b` hold.
    pub open spec fn spec_from_bytes(b: Seq<u8>) -> MultisigState {
        MultisigState {
            seed: spec_u64_from_le_bytes(b.subrange(0, 8)),
            admin_spending_limit: spec_u64_from_le_bytes(b.subrange(8, 16)),
            max_expiry: spec_u64_from_le_bytes(b.subrange(16, 24)),
            transaction_index: spec_u64_from_le_bytes(b.subrange(24, 32)),
            stale_transaction_index: spec_u64_from_le_bytes(b.subrange(32, 40)),
            primary_seed: spec_u16_from_le_bytes(b.subrange(40, 42)),
            admin: key_from(b.subrange(42, 74)),
            treasury: key_from(b.subrange(74, 106)),
            treasury_bump: b[106],
            bump: b[107],
            min_threshold: b[108],
            num_members: b[109],
            members_counter: b[110],
            admin_counter: b[111],
        }
    }

    /// Decoding an encoded header gives the header back.
    pub proof fn lemma_round_trip(self)
        ensures
            self.spec_bytes().len() == Self::LEN,
            Self::spec_from_bytes(self.spec_bytes()) == self,
    {
        lemma_auto_spec_u64_to_from_le_bytes();
        lemma_auto_spec_u16_to_from_le_bytes();
        lemma_key_from(self.admin);
        lemma_key_from(self.treasury);
        let b = self.spec_bytes();
        assert(b.subrange(0, 8) =~= spec_u64_to_le_bytes(self.seed));
        assert(b.subrange(8, 16) =~= spec_u64_to_le_bytes(self.admin_spending_limit));
        assert(b.subrange(16, 24) =~= spec_u64_to_le_bytes(self.max_expiry));
        assert(b.subrange(24, 32) =~= spec_u64_to_le_bytes(self.transaction_index));
        assert(b.subrange(32, 40) =~= spec_u64_to_le_bytes(self.stale_transaction_index));
        assert(b.subrange(40, 42) =~= spec_u16_to_le_bytes(self.primary_seed));
        assert(b.subrange(42, 74) =~= self.admin@);
        assert(b.subrange(74, 106) =~= self.treasury@);
    }

    /// Encodes the header.
    pub fn to_bytes(&self) -> (r: Vec<u8>)
        ensures
            r@ == self.spec_bytes(),
            r@.len() == Self::LEN,
    {
        proof {
            self.lemma_round_trip();
        }
        let mut out: Vec<u8> = Vec::new();
        push_u64(&mut out, self.seed);
        push_u64(&mut out, self.admin_spending_limit);
        push_u64(&mut out, self.max_expiry);
        push_u64(&mut out, self.transaction_index);
        push_u64(&mut out, self.stale_transaction_index);
        push_u16(&mut out, self.primary_seed);
        push_bytes(&mut out, &self.admin);
        push_bytes(&mut out, &self.treasury);
        out.push(self.treasury_bump);
        out.push(self.bump);
        out.push(self.min_threshold);
        out.push(self.num_members);
        out.push(self.members_counter);
        out.push(self.admin_counter);
        assert(out@ =~= self.spec_bytes());
        out
    }

    /// Decodes the header at the front of `bytes`.
    pub fn from_bytes(bytes: &[u8]) -> (r: Result<MultisigState, MultisigError>)
        ensures
            r == (if bytes@.len() < Self::LEN {
                Err(MultisigError::InvalidData)
            } else {
                Ok(Self::spec_from_bytes(bytes@))
            }),
    {
        if bytes.len() < Self::LEN {
            return Err(MultisigError::InvalidData);
        }
        let admin = read_key(bytes, 42);
        let treasury = read_key(bytes, 74);
        proof {
            lemma_key_from(admin);
            lemma_key_from(treasury);
        }
        Ok(MultisigState {
            seed: read_u64(bytes, 0),
            admin_spending_limit: read_u64(bytes, 8),
            max_expiry: read_u64(bytes, 16),
            transaction_index: read_u64(bytes, 24),
            stale_transaction_index: read_u64(bytes, 32),
            primary_seed: read_u16(bytes, 40),
            admin,
            treasury,
            treasury_bump: bytes[106],
            bump: bytes[107],
            min_threshold: bytes[108],
            num_members: bytes[109],
            members_counter: bytes[110],
            admin_counter: bytes[111],
        })
    }

    /// Fills the header of a freshly created group from the payload: no admin
    /// key, no spending allowance, no transactions, and no members yet.
    pub fn new(
        &mut self,
        treasury: &Pubkey,
        treasury_bump: u8,
        multisig_bump: u8,
        ix_data: &InitMultisigIxData,
    )
        ensures
            final(self).admin@ == Seq::new(32, |_i: int| 0u8),
            *final(self) == (MultisigState {
                seed: old(self).seed,
                admin_spending_limit: 0,
                max_expiry: ix_data.max_expiry,
                transaction_index: 0,
                stale_transaction_index: 0,
                primary_seed: ix_data.primary_seed,
                admin: final(self).admin,
                treasury: *treasury,
                treasury_bump,
                bump: multisig_bump,
                min_threshold: ix_data.min_threshold,
                num_members: 0,
                members_counter: 0,
                admin_counter: 0,
            }),
    {
        self.admin = [0u8; 32];
        self.admin_spending_limit = 0;
        self.treasury = *treasury;
        self.treasury_bump = treasury_bump;
        self.bump = multisig_bump;
        self.min_threshold = ix_data.min_threshold;
        self.max_expiry = ix_data.max_expiry;
        self.transaction_index = 0;
        self.stale_transaction_index = 0;
        self.num_members = 0;
        self.members_counter = 0;
        self.admin_counter = 0;
        self.primary_seed = ix_data.primary_seed;
        assert(self.admin@ =~= Seq::new(32, |_i: int| 0u8));
    }

    /// Sets the vote threshold.
    pub fn update_threshold(&mut self, threshold: u8)
        ensures
            *final(self) == (MultisigState { min_threshold: threshold, ..*old(self) }),
    {
        self.min_threshold = threshold;
    }

    /// Sets the admin spending limit.
    pub fn update_spending_limit(&mut self, spending_limit: u64)
        ensures
            *final(self) == (MultisigState { admin_spending_limit: spending_limit, ..*old(self) }),
    {
        self.admin_spending_limit = spending_limit;
    }

    /// Sets the stale transaction index.
    pub fn update_stale_transaction_index(&mut self, stale_transaction_index: u64)
        ensures
            *final(self) == (MultisigState {
                stale_transaction_index: stale_transaction_index,
                ..*old(self)
            }),
    {
        self.stale_transaction_index = stale_transaction_index;
    }
}

} // verus!
