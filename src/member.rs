use vstd::prelude::*;
use crate::codec::{lemma_key_from, key_from, read_key, Pubkey, KEY_LEN};
use crate::error::MultisigError;

verus! {

/// The role a member is added with.
#[derive(Clone, Copy, Debug, PartialEq, Eq, Structural)]
pub enum MemberRole {
    Admin,
    Member,
}

/// The role that a role byte names: 1 is an admin, anything else a regular member.
pub open spec fn spec_role(b: u8) -> MemberRole {
    if b == 1 {
        MemberRole::Admin
    } else {
        MemberRole::Member
    }
}

impl MemberRole {
    /// Decodes a role byte.
    pub fn from_u8(b: u8) -> (r: MemberRole)
        ensures
            r == spec_role(b),
    {
        if b == 1 {
            MemberRole::Admin
        } else {
            MemberRole::Member
        }
    }
}

/// One entry of a member array.
#[derive(Clone, Copy, Debug)]
pub struct MemberState {
    pub pubkey: Pubkey,
}

impl MemberState {
    /// Width of an entry.
    pub const LEN: usize = 32;

    /// Decodes the entry at the front of `bytes`.
    pub fn from_bytes(bytes: &[u8]) -> (r: Result<MemberState, MultisigError>)
        ensures
            r is Ok <==> bytes@.len() >= Self::LEN,
            r is Ok ==> r->Ok_0.pubkey@ == bytes@.subrange(0, 32),
            r is Ok ==> r->Ok_0.pubkey == key_from(bytes@.subrange(0, 32)),
            r is Err ==> r == Err::<MemberState, MultisigError>(MultisigError::InvalidData),
    {
        if bytes.len() < KEY_LEN {
            return Err(MultisigError::InvalidData);
        }
        let pubkey = read_key(bytes, 0);
        proof {
            lemma_key_from(pubkey);
        }
        Ok(MemberState { pubkey })
    }

    /// Decoding an encoded entry gives the entry back.
    pub proof fn lemma_round_trip(self)
        ensures
            key_from(self.pubkey@) == self.pubkey,
            self.pubkey@.subrange(0, 32) == self.pubkey@,
    {
        lemma_key_from(self.pubkey);
        assert(self.pubkey@.subrange(0, 32) =~= self.pubkey@);
    }

    /// Encodes the entry; it always succeeds.
    pub fn to_bytes(&self) -> (r: Result<[u8; 32], MultisigError>)
        ensures
            r is Ok,
            r->Ok_0@ == self.pubkey@,
    {
        Ok(self.pubkey)
    }
}

} // verus!
