//! Program-derived addresses: where records of this program live.
use vstd::prelude::*;
use vstd::bytes::*;
use crate::codec::{keys_equal, Pubkey};
use crate::error::MultisigError;
use crate::proposal::ProposalState;

verus! {

/// The identity of this program, which owns every record it creates.
pub const ID: Pubkey = [
    55, 59, 71, 17, 142, 133, 82, 138, 18, 162, 148, 13, 228, 66, 149, 251, 246, 44, 92, 85, 94,
    18, 60, 215, 192, 21, 129, 253, 131, 160, 85, 84,
];

/// The seed tag of proposal addresses: the bytes of "proposal".
pub const PROPOSAL_SEED: [u8; 8] = [112, 114, 111, 112, 111, 115, 97, 108];

/// The seed tag of group addresses: the bytes of "multisig".
pub const MULTISIG_SEED: [u8; 8] = [109, 117, 108, 116, 105, 115, 105, 103];

/// The seed tag of treasury addresses: the bytes of "treasury".
pub const TREASURY_SEED: [u8; 8] = [116, 114, 101, 97, 115, 117, 114, 121];

/// The seed tag of transaction buffer addresses: the bytes of "transaction".
pub const TRANSACTION_SEED: [u8; 11] = [116, 114, 97, 110, 115, 97, 99, 116, 105, 111, 110];

/// The address that the seeds, the bump and the program identity derive.
pub uninterp spec fn derived_address(seeds: Seq<Seq<u8>>, bump: u8, program_id: Seq<u8>) -> Seq<u8>;

/// Relies on pinocchio_pubkey::derive_address_const: the address is the
/// SHA-256 digest of the seeds, the bump, the program identity and the PDA
/// marker, a function of these alone.
#[verifier::external_body]
fn derive_address<const N: usize>(seeds: &[&[u8]; N], bump: u8, program_id: &Pubkey) -> (r: Pubkey)
    requires
        N < 16,
    ensures
        r@ == derived_address(seeds@.map_values(|s: &[u8]| s@), bump, program_id@),
{
    pinocchio_pubkey::derive_address_const(seeds, Some(bump), program_id)
}

/// The address of the group with sub-seed `primary_seed`.
pub open spec fn multisig_address(primary_seed: u16, bump: u8) -> Seq<u8> {
    derived_address(seq![MULTISIG_SEED@, spec_u16_to_le_bytes(primary_seed)], bump, ID@)
}

/// The address of the treasury of the group at `multisig`.
pub open spec fn treasury_address(multisig: Pubkey, bump: u8) -> Seq<u8> {
    derived_address(seq![TREASURY_SEED@, multisig@], bump, ID@)
}

/// The address of the transaction buffer paid for by `payer`.
pub open spec fn transaction_address(payer: Pubkey, bump: u8) -> Seq<u8> {
    derived_address(seq![TRANSACTION_SEED@, payer@], bump, ID@)
}

/// The address of the proposal with sub-seed `primary_seed` of the group at
/// `owner`.
pub open spec fn proposal_address(owner: Pubkey, proposal_bump: u8, primary_seed: u16) -> Seq<u8> {
    derived_address(
        seq![PROPOSAL_SEED@, owner@, spec_u16_to_le_bytes(primary_seed)],
        proposal_bump,
        ID@,
    )
}

/// The outcome of comparing `pda` with the address `derived`.
fn match_address(pda: &Pubkey, derived: &Pubkey) -> (r: Result<(), MultisigError>)
    ensures
        r == (if pda@ == derived@ {
            Ok(())
        } else {
            Err(MultisigError::AddressMismatch)
        }),
{
    if !keys_equal(derived, pda) {
        return Err(MultisigError::AddressMismatch);
    }
    Ok(())
}

/// Succeeds exactly when `pda` is the address of the group with sub-seed
/// `primary_seed` and bump `bump`.
pub fn validate_multisig_pda(pda: &Pubkey, bump: u8, primary_seed: u16) -> (r: Result<(), MultisigError>)
    ensures
        r == (if pda@ == multisig_address(primary_seed, bump) {
            Ok(())
        } else {
            Err(MultisigError::AddressMismatch)
        }),
{
    let tag: [u8; 8] = MULTISIG_SEED;
    let seed = u16_to_le_bytes(primary_seed);
    let seeds: [&[u8]; 2] = [tag.as_slice(), seed.as_slice()];
    assert(seeds@.map_values(|s: &[u8]| s@) =~= seq![MULTISIG_SEED@, spec_u16_to_le_bytes(primary_seed)]);
    let derived = derive_address(&seeds, bump, &ID);
    match_address(pda, &derived)
}

/// Succeeds exactly when `pda` is the address of the treasury, with bump
/// `bump`, of the group at `multisig`.
pub fn validate_treasury_pda(pda: &Pubkey, bump: u8, multisig: &Pubkey) -> (r: Result<(), MultisigError>)
    ensures
        r == (if pda@ == treasury_address(*multisig, bump) {
            Ok(())
        } else {
            Err(MultisigError::AddressMismatch)
        }),
{
    let tag: [u8; 8] = TREASURY_SEED;
    let seeds: [&[u8]; 2] = [tag.as_slice(), multisig.as_slice()];
    assert(seeds@.map_values(|s: &[u8]| s@) =~= seq![TREASURY_SEED@, multisig@]);
    let derived = derive_address(&seeds, bump, &ID);
    match_address(pda, &derived)
}

/// Succeeds exactly when `pda` is the address of the transaction buffer, with
/// bump `bump`, paid for by `payer`.
pub fn validate_transaction_pda(pda: &Pubkey, bump: u8, payer: &Pubkey) -> (r: Result<(), MultisigError>)
    ensures
        r == (if pda@ == transaction_address(*payer, bump) {
            Ok(())
        } else {
            Err(MultisigError::AddressMismatch)
        }),
{
    let tag: [u8; 11] = TRANSACTION_SEED;
    let seeds: [&[u8]; 2] = [tag.as_slice(), payer.as_slice()];
    assert(seeds@.map_values(|s: &[u8]| s@) =~= seq![TRANSACTION_SEED@, payer@]);
    let derived = derive_address(&seeds, bump, &ID);
    match_address(pda, &derived)
}

impl ProposalState {
    /// Succeeds exactly when `pda` is the address of the proposal with sub-seed
    /// `proposal_primary_seed` and bump `proposal_bump` of the group at `owner`.
    pub fn validate_pda(
        pda: &Pubkey,
        owner: &Pubkey,
        proposal_bump: u8,
        proposal_primary_seed: u16,
    ) -> (r: Result<(), MultisigError>)
        ensures
            r == (if pda@ == proposal_address(*owner, proposal_bump, proposal_primary_seed) {
                Ok(())
            } else {
                Err(MultisigError::AddressMismatch)
            }),
    {
        let tag: [u8; 8] = PROPOSAL_SEED;
        let seed = u16_to_le_bytes(proposal_primary_seed);
        let seeds: [&[u8]; 3] = [tag.as_slice(), owner.as_slice(), seed.as_slice()];
        assert(seeds@.map_values(|s: &[u8]| s@) =~= seq![
            PROPOSAL_SEED@,
            owner@,
            spec_u16_to_le_bytes(proposal_primary_seed),
        ]);
        let derived = derive_address(&seeds, proposal_bump, &ID);
        match_address(pda, &derived)
    }
}

} // verus!
