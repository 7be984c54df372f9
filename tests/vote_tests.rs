use pinocchio_multisig::{
    process_create_proposal_instruction, process_init_multisig_instruction,
    process_vote_instruction, AccountRecord, ID, MemberState, MultisigError, MultisigState,
    ProposalState, Pubkey, RepeatVotePolicy, VoteIxData,
};

fn key(n: u8) -> Pubkey {
    [n; 32]
}

fn rent(len: usize) -> u64 {
    (128 + len as u64) * 3480 * 2
}

fn account(k: Pubkey, lamports: u64, is_signer: bool) -> AccountRecord {
    AccountRecord { key: k, lamports, data: Vec::new(), is_signer, program_owned: false }
}

fn multisig_pda(seed: u16, bump: u8) -> Pubkey {
    pinocchio_pubkey::derive_address_const(&[b"multisig".as_ref(), seed.to_le_bytes().as_ref()], Some(bump), &ID)
}

fn treasury_pda(multisig: &Pubkey, bump: u8) -> Pubkey {
    pinocchio_pubkey::derive_address_const(&[b"treasury".as_ref(), multisig.as_ref()], Some(bump), &ID)
}

fn proposal_pda(multisig: &Pubkey, seed: u16, bump: u8) -> Pubkey {
    pinocchio_pubkey::derive_address_const(
        &[b"proposal".as_ref(), multisig.as_ref(), seed.to_le_bytes().as_ref()],
        Some(bump),
        &ID,
    )
}

struct Setup {
    multisig: AccountRecord,
    proposal: AccountRecord,
    second_admin: AccountRecord,
    third_admin: AccountRecord,
}

fn setup() -> Setup {
    let mut fee_payer = account(key(1), 100_000_000, true);
    let mut second_admin = account(key(2), 1_000_000_000, true);
    let third_admin = account(key(3), 100_000_000, true);
    let admins = vec![second_admin.key, third_admin.key];
    let mut multisig = account(multisig_pda(0, 255), 0, false);
    let mut treasury = account(treasury_pda(&multisig.key, 255), 0, false);
    let data = [1_000_000u64.to_le_bytes().to_vec(), 0u16.to_le_bytes().to_vec(), vec![2, 2, 2, 0, 0, 0]].concat();
    let r = process_init_multisig_instruction(
        &mut fee_payer,
        &mut multisig,
        &mut treasury,
        &admins,
        &data,
        255,
        255,
        rent(MultisigState::LEN),
        rent(MultisigState::LEN + 2 * MemberState::LEN),
    );
    assert!(r.is_ok());
    let mut proposal = account(proposal_pda(&multisig.key, 0, 254), 0, false);
    let pdata = [1_000_000u64.to_le_bytes().to_vec(), 0u16.to_le_bytes().to_vec(), vec![0; 6]].concat();
    let r = process_create_proposal_instruction(
        &mut second_admin,
        &mut proposal,
        &multisig,
        &pdata,
        254,
        rent(ProposalState::LEN),
        1_700_000_000,
    );
    assert!(r.is_ok());
    Setup { multisig, proposal, second_admin, third_admin }
}

fn vote_as(s: &mut Setup, who: u8, vote: u8) -> Result<(), MultisigError> {
    let ix = VoteIxData { multisig_bump: 255, proposal_bump: 254, vote };
    let bytes = ix.to_bytes().unwrap();
    let min = rent(s.proposal.data.len() + 32);
    let voter = if who == 2 { &mut s.second_admin } else { &mut s.third_admin };
    process_vote_instruction(voter, &s.multisig, &mut s.proposal, &bytes, min, RepeatVotePolicy::Idempotent)
}

fn vote(s: &mut Setup, who: u8, vote: u8) {
    let result = vote_as(s, who, vote);
    assert!(result.is_ok());
}

fn votes(s: &Setup) -> Vec<Vec<u8>> {
    s.proposal.data[ProposalState::LEN..].chunks_exact(32).map(|c| c.to_vec()).collect()
}

fn counts(s: &Setup) -> (u8, u8) {
    let state = ProposalState::from_bytes(&s.proposal.data).unwrap();
    (state.yes_votes, state.no_votes)
}

#[test]
fn test_first_vote_yes() {
    let mut s = setup();
    vote(&mut s, 2, 1);
    assert_eq!(counts(&s), (1, 0));
    let v = votes(&s);
    assert_eq!(v.len(), 1);
    assert_eq!(v[0], key(2).to_vec());
}

#[test]
fn test_first_vote_no() {
    let mut s = setup();
    vote(&mut s, 2, 0);
    assert_eq!(counts(&s), (0, 1));
    let v = votes(&s);
    assert_eq!(v.len(), 1);
    assert_eq!(v[0], key(2).to_vec());
}

#[test]
fn test_change_vote_from_yes_to_no() {
    let mut s = setup();
    vote(&mut s, 2, 1);
    vote(&mut s, 2, 0);
    assert_eq!(counts(&s), (0, 1));
    let v = votes(&s);
    assert_eq!(v.len(), 1);
    assert_eq!(v[0], key(2).to_vec());
}

#[test]
fn test_change_vote_from_no_to_yes() {
    let mut s = setup();
    vote(&mut s, 2, 0);
    vote(&mut s, 2, 1);
    assert_eq!(counts(&s), (1, 0));
    let v = votes(&s);
    assert_eq!(v.len(), 1);
    assert_eq!(v[0], key(2).to_vec());
}

#[test]
fn test_multiple_votes_yes_then_no() {
    let mut s = setup();
    vote(&mut s, 2, 1);
    vote(&mut s, 3, 1);
    assert_eq!(counts(&s), (2, 0));
    vote(&mut s, 2, 0);
    assert_eq!(counts(&s), (1, 1));
    let v = votes(&s);
    assert_eq!(v.len(), 2);
    assert_eq!(v[0], key(3).to_vec());
    assert_eq!(v[1], key(2).to_vec());
}

#[test]
fn test_multiple_votes_no_then_yes() {
    let mut s = setup();
    vote(&mut s, 2, 0);
    vote(&mut s, 3, 0);
    vote(&mut s, 2, 1);
    assert_eq!(counts(&s), (1, 1));
    let v = votes(&s);
    assert_eq!(v.len(), 2);
    assert_eq!(v[1], key(3).to_vec());
    assert_eq!(v[0], key(2).to_vec());
}

#[test]
fn test_vote_alternating_pattern() {
    let mut s = setup();
    vote(&mut s, 2, 1);
    assert_eq!(counts(&s), (1, 0));
    vote(&mut s, 2, 0);
    assert_eq!(counts(&s), (0, 1));
    vote(&mut s, 2, 1);
    assert_eq!(counts(&s), (1, 0));
    vote(&mut s, 2, 0);
    assert_eq!(counts(&s), (0, 1));
    let v = votes(&s);
    assert_eq!(v.len(), 1);
    assert_eq!(v[0], key(2).to_vec());
}

#[test]
fn first_yes_vote_moves_past_existing_no_votes() {
    let mut s = setup();
    vote(&mut s, 2, 0);
    vote(&mut s, 3, 1);
    assert_eq!(counts(&s), (1, 1));
    let v = votes(&s);
    assert_eq!(v, vec![key(3).to_vec(), key(2).to_vec()]);
}

#[test]
fn vote_scenario_d_first_yes_vote() {
    let mut s = setup();
    vote(&mut s, 3, 1);
    assert_eq!(votes(&s), vec![key(3).to_vec()]);
    assert_eq!(counts(&s), (1, 0));
}

#[test]
fn vote_scenario_e_change_to_no() {
    let mut s = setup();
    vote(&mut s, 3, 1);
    vote(&mut s, 3, 0);
    assert_eq!(votes(&s), vec![key(3).to_vec()]);
    assert_eq!(counts(&s), (0, 1));
}

#[test]
fn vote_scenario_f_outsider_is_unauthorized() {
    let mut s = setup();
    vote(&mut s, 2, 1);
    let before = s.proposal.clone();
    let mut outsider = account(key(42), 1_000_000_000, true);
    let bytes = VoteIxData { multisig_bump: 255, proposal_bump: 254, vote: 1 }.to_bytes().unwrap();
    let r = process_vote_instruction(&mut outsider, &s.multisig, &mut s.proposal, &bytes, rent(64), RepeatVotePolicy::Idempotent);
    assert_eq!(r, Err(MultisigError::Unauthorized));
    assert_eq!(s.proposal.data, before.data);
    assert_eq!(s.proposal.lamports, before.lamports);
    assert_eq!(outsider.lamports, 1_000_000_000);
}

#[test]
fn repeated_vote_follows_policy() {
    let mut s = setup();
    vote(&mut s, 2, 1);
    let before = s.proposal.data.clone();
    vote(&mut s, 2, 1);
    assert_eq!(s.proposal.data, before);
    let bytes = VoteIxData { multisig_bump: 255, proposal_bump: 254, vote: 1 }.to_bytes().unwrap();
    let r = process_vote_instruction(&mut s.second_admin, &s.multisig, &mut s.proposal, &bytes, rent(96), RepeatVotePolicy::Reject);
    assert_eq!(r, Err(MultisigError::DuplicateEntry));
    assert_eq!(s.proposal.data, before);
}

#[test]
fn vote_on_foreign_record_is_illegal_owner() {
    let mut s = setup();
    s.proposal.program_owned = false;
    assert_eq!(vote_as(&mut s, 2, 1), Err(MultisigError::IllegalOwner));
}

#[test]
fn short_vote_payload_is_invalid() {
    let mut s = setup();
    let r = process_vote_instruction(&mut s.second_admin, &s.multisig, &mut s.proposal, &[1, 2], rent(64), RepeatVotePolicy::Idempotent);
    assert_eq!(r, Err(MultisigError::InvalidData));
}

#[test]
fn first_vote_tops_up_deposit_from_voter() {
    let mut s = setup();
    let voter_before = s.second_admin.lamports;
    let proposal_before = s.proposal.lamports;
    vote(&mut s, 2, 1);
    let needed = rent(ProposalState::LEN + 32);
    assert_eq!(s.proposal.lamports, needed);
    assert_eq!(s.second_admin.lamports, voter_before - (needed - proposal_before));
    assert!(s.proposal.lamports >= rent(s.proposal.data.len()));
    vote(&mut s, 2, 0);
    assert_eq!(s.proposal.lamports, needed);
}

#[test]
fn poor_voter_cannot_fund_first_vote() {
    let mut s = setup();
    s.third_admin.lamports = 10;
    assert_eq!(vote_as(&mut s, 3, 1), Err(MultisigError::InsufficientFunds));
    assert_eq!(s.third_admin.lamports, 10);
}

#[test]
fn vote_sequence_keeps_density() {
    let mut s = setup();
    let steps: [(u8, u8); 6] = [(2, 1), (3, 0), (2, 0), (3, 1), (3, 1), (2, 1)];
    for (who, choice) in steps {
        vote(&mut s, who, choice);
        let (yes, no) = counts(&s);
        let v = votes(&s);
        assert_eq!(v.len(), (yes + no) as usize);
        if v.len() == 2 {
            assert_ne!(v[0], v[1]);
        }
    }
    assert_eq!(counts(&s), (2, 0));
}

#[test]
fn vote_payload_round_trip() {
    let ix = VoteIxData { multisig_bump: 7, proposal_bump: 9, vote: 1 };
    let bytes = ix.to_bytes().unwrap();
    assert_eq!(bytes, [7, 9, 1]);
    assert_eq!(VoteIxData::from_bytes(&bytes), Ok(ix));
}
