use pinocchio_multisig::{MultisigError, ProposalState, StateDefinition, ID, PROPOSAL_SEED};

#[test]
fn program_identity_matches_its_text_form() {
    assert_eq!(ID, pinocchio_pubkey::from_str("4ibrEMW5F6hKnkW4jVedswYv6H6VtwPN6ar6dvXDN1nT"));
    assert_eq!(&PROPOSAL_SEED, ProposalState::SEED.as_bytes());
}

#[test]
fn proposal_address_is_validated_against_the_derivation() {
    let owner = [7u8; 32];
    let seed: u16 = 3;
    let bump: u8 = 254;
    let expected = pinocchio_pubkey::derive_address_const(
        &[b"proposal".as_ref(), owner.as_ref(), seed.to_le_bytes().as_ref()],
        Some(bump),
        &ID,
    );
    assert_ne!(expected, owner);
    assert_eq!(ProposalState::validate_pda(&expected, &owner, bump, seed), Ok(()));
    assert_eq!(ProposalState::validate_pda(&owner, &owner, bump, seed), Err(MultisigError::AddressMismatch));
    assert_eq!(ProposalState::validate_pda(&expected, &owner, bump, seed + 1), Err(MultisigError::AddressMismatch));
    assert_eq!(ProposalState::validate_pda(&expected, &owner, bump - 1, seed), Err(MultisigError::AddressMismatch));
}
