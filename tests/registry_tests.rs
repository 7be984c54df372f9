use pinocchio_multisig::{
    add_member, close_account, process_create_transaction, process_init_multisig_instruction,
    process_update_member, process_update_multisig, remove_member, AccountRecord, ID,
    MemberRole, MemberState, MultisigError, MultisigInstructions, MultisigState, ProposalState,
    ProposalStatus, Pubkey, TransactionState, MEMBERS_OFFSET, validate_multisig_pda,
    validate_transaction_pda, validate_treasury_pda,
};

fn key(n: u8) -> Pubkey {
    [n; 32]
}

fn rent(len: usize) -> u64 {
    (128 + len as u64) * 3480 * 2
}

fn account(k: Pubkey, lamports: u64, is_signer: bool) -> AccountRecord {
    AccountRecord { key: k, lamports, data: Vec::new(), is_signer, program_owned: false }
}

fn multisig_pda(seed: u16, bump: u8) -> Pubkey {
    pinocchio_pubkey::derive_address_const(&[b"multisig".as_ref(), seed.to_le_bytes().as_ref()], Some(bump), &ID)
}

fn treasury_pda(multisig: &Pubkey, bump: u8) -> Pubkey {
    pinocchio_pubkey::derive_address_const(&[b"treasury".as_ref(), multisig.as_ref()], Some(bump), &ID)
}

fn transaction_pda(payer: &Pubkey, bump: u8) -> Pubkey {
    pinocchio_pubkey::derive_address_const(&[b"transaction".as_ref(), payer.as_ref()], Some(bump), &ID)
}

fn empty_group() -> (AccountRecord, AccountRecord) {
    let mut payer = account(key(1), 1_000_000_000, true);
    let mut multisig = account(multisig_pda(7, 1), 0, false);
    let mut treasury = account(treasury_pda(&multisig_pda(7, 1), 2), 0, false);
    let data = [500u64.to_le_bytes().to_vec(), 7u16.to_le_bytes().to_vec(), vec![1, 0, 0, 0, 0, 0]].concat();
    let r = process_init_multisig_instruction(
        &mut payer,
        &mut multisig,
        &mut treasury,
        &vec![],
        &data,
        1,
        2,
        rent(MultisigState::LEN),
        rent(MultisigState::LEN),
    );
    assert_eq!(r, Ok(()));
    (payer, multisig)
}

fn add(payer: &mut AccountRecord, multisig: &mut AccountRecord, k: Pubkey, role: u8) -> Result<(), MultisigError> {
    let mut data = k.to_vec();
    data.push(role);
    let min = rent(multisig.data.len() + 32);
    add_member(payer, multisig, min, &data)
}

fn remove(multisig: &mut AccountRecord, k: Pubkey) -> Result<(), MultisigError> {
    remove_member(multisig, &k)
}

fn members(multisig: &AccountRecord) -> Vec<Vec<u8>> {
    multisig.data[MEMBERS_OFFSET..].chunks_exact(32).map(|c| c.to_vec()).collect()
}

fn counters(multisig: &AccountRecord) -> (u8, u8) {
    let h = MultisigState::from_bytes(&multisig.data).unwrap();
    (h.num_members, h.admin_counter)
}

#[test]
fn scenario_a_empty_group() {
    let (_payer, multisig) = empty_group();
    assert_eq!(counters(&multisig), (0, 0));
    assert_eq!(multisig.data.len(), MultisigState::LEN);
    assert!(multisig.program_owned);
    assert!(multisig.lamports >= rent(multisig.data.len()));
}

#[test]
fn scenario_b_admin_inserted_before_regular_members() {
    let (mut payer, mut multisig) = empty_group();
    let (x, y, z) = (key(10), key(11), key(12));
    assert_eq!(add(&mut payer, &mut multisig, x, 1), Ok(()));
    assert_eq!(add(&mut payer, &mut multisig, y, 0), Ok(()));
    assert_eq!(add(&mut payer, &mut multisig, z, 1), Ok(()));
    assert_eq!(members(&multisig), vec![x.to_vec(), z.to_vec(), y.to_vec()]);
    assert_eq!(counters(&multisig), (3, 2));
}

#[test]
fn scenario_c_admin_removal_closes_the_gap() {
    let (mut payer, mut multisig) = empty_group();
    let (x, y, z) = (key(10), key(11), key(12));
    add(&mut payer, &mut multisig, x, 1).unwrap();
    add(&mut payer, &mut multisig, y, 0).unwrap();
    add(&mut payer, &mut multisig, z, 1).unwrap();
    let lamports = multisig.lamports;
    assert_eq!(remove(&mut multisig, x), Ok(()));
    assert_eq!(members(&multisig), vec![z.to_vec(), y.to_vec()]);
    assert_eq!(counters(&multisig), (2, 1));
    assert_eq!(multisig.data.len(), MultisigState::LEN + 2 * 32);
    assert_eq!(multisig.lamports, lamports);
}

#[test]
fn regular_member_removal_swaps_with_last() {
    let (mut payer, mut multisig) = empty_group();
    for (n, role) in [(10u8, 1u8), (11, 0), (12, 0), (13, 0)] {
        add(&mut payer, &mut multisig, key(n), role).unwrap();
    }
    assert_eq!(remove(&mut multisig, key(11)), Ok(()));
    assert_eq!(members(&multisig), vec![key(10).to_vec(), key(13).to_vec(), key(12).to_vec()]);
    assert_eq!(counters(&multisig), (3, 1));
}

#[test]
fn member_sequence_keeps_partition() {
    let (mut payer, mut multisig) = empty_group();
    let mut admins: Vec<Vec<u8>> = Vec::new();
    let mut regulars: Vec<Vec<u8>> = Vec::new();
    let steps: [(bool, u8, u8); 9] = [
        (true, 1, 1), (true, 2, 0), (true, 3, 1), (true, 4, 0), (false, 1, 0),
        (true, 5, 1), (false, 4, 0), (true, 6, 0), (false, 3, 0),
    ];
    for (is_add, n, role) in steps {
        if is_add {
            add(&mut payer, &mut multisig, key(n), role).unwrap();
            if role == 1 { admins.push(key(n).to_vec()) } else { regulars.push(key(n).to_vec()) }
        } else {
            remove(&mut multisig, key(n)).unwrap();
            admins.retain(|k| k != &key(n).to_vec());
            regulars.retain(|k| k != &key(n).to_vec());
        }
        let m = members(&multisig);
        let (num, ac) = counters(&multisig);
        assert_eq!(m.len(), num as usize);
        assert_eq!(ac as usize, admins.len());
        let mut front: Vec<Vec<u8>> = m[..ac as usize].to_vec();
        let mut back: Vec<Vec<u8>> = m[ac as usize..].to_vec();
        front.sort();
        back.sort();
        let mut a = admins.clone();
        let mut r = regulars.clone();
        a.sort();
        r.sort();
        assert_eq!(front, a);
        assert_eq!(back, r);
        let mut all = m.clone();
        all.sort();
        all.dedup();
        assert_eq!(all.len(), m.len());
        assert!(multisig.lamports >= rent(multisig.data.len()));
    }
}

#[test]
fn duplicate_member_is_rejected() {
    let (mut payer, mut multisig) = empty_group();
    add(&mut payer, &mut multisig, key(10), 1).unwrap();
    let before = multisig.clone();
    assert_eq!(add(&mut payer, &mut multisig, key(10), 0), Err(MultisigError::DuplicateEntry));
    assert_eq!(multisig.data, before.data);
}

#[test]
fn absent_member_is_not_found() {
    let (mut payer, mut multisig) = empty_group();
    add(&mut payer, &mut multisig, key(10), 1).unwrap();
    assert_eq!(remove(&mut multisig, key(99)), Err(MultisigError::NotFound));
}

#[test]
fn full_member_array_overflows() {
    let (mut payer, mut multisig) = empty_group();
    payer.lamports = u64::MAX / 2;
    for n in 0..255u8 {
        let mut k = [0u8; 32];
        k[0] = n;
        k[1] = 1;
        add(&mut payer, &mut multisig, k, 0).unwrap();
    }
    assert_eq!(counters(&multisig), (255, 0));
    assert_eq!(add(&mut payer, &mut multisig, key(2), 1), Err(MultisigError::Overflow));
}

#[test]
fn short_member_payload_is_invalid() {
    let (mut payer, mut multisig) = empty_group();
    assert_eq!(add_member(&mut payer, &mut multisig, 0, &[1, 2, 3]), Err(MultisigError::InvalidData));
    assert_eq!(remove_member(&mut multisig, &[1, 2, 3]), Err(MultisigError::InvalidData));
}

#[test]
fn add_tops_up_deposit_from_payer() {
    let (mut payer, mut multisig) = empty_group();
    let payer_before = payer.lamports;
    let before = multisig.lamports;
    add(&mut payer, &mut multisig, key(10), 0).unwrap();
    let needed = rent(MultisigState::LEN + 32);
    assert_eq!(multisig.lamports, needed);
    assert_eq!(payer.lamports, payer_before - (needed - before));
}

#[test]
fn poor_payer_cannot_add() {
    let (mut payer, mut multisig) = empty_group();
    payer.lamports = 5;
    assert_eq!(add(&mut payer, &mut multisig, key(10), 0), Err(MultisigError::InsufficientFunds));
    assert_eq!(payer.lamports, 5);
    assert_eq!(counters(&multisig), (0, 0));
}

#[test]
fn update_member_dispatch() {
    let (mut payer, mut multisig) = empty_group();
    let mut data = vec![1u8];
    data.extend_from_slice(&key(10));
    data.push(1);
    let min = rent(multisig.data.len() + 32);
    assert_eq!(process_update_member(&mut payer, &mut multisig, min, &data), Ok(()));
    assert_eq!(counters(&multisig), (1, 1));
    data[0] = 2;
    assert_eq!(process_update_member(&mut payer, &mut multisig, min, &data), Ok(()));
    assert_eq!(counters(&multisig), (0, 0));
    data[0] = 3;
    assert_eq!(process_update_member(&mut payer, &mut multisig, min, &data), Err(MultisigError::InvalidData));
}

#[test]
fn update_multisig_sets_each_field() {
    let (payer, mut multisig) = empty_group();
    let upd = |value: u64, kind: u8, threshold: u8| [value.to_le_bytes().to_vec(), vec![kind, threshold, 0, 0, 0, 0, 0, 0]].concat();
    assert_eq!(process_update_multisig(&payer, &mut multisig, &upd(100, 1, 3)), Ok(()));
    assert_eq!(MultisigState::from_bytes(&multisig.data).unwrap().min_threshold, 3);
    assert_eq!(process_update_multisig(&payer, &mut multisig, &upd(100, 2, 0)), Ok(()));
    assert_eq!(MultisigState::from_bytes(&multisig.data).unwrap().admin_spending_limit, 100);
    assert_eq!(process_update_multisig(&payer, &mut multisig, &upd(42, 3, 0)), Ok(()));
    let h = MultisigState::from_bytes(&multisig.data).unwrap();
    assert_eq!(h.stale_transaction_index, 42);
    assert_eq!(h.min_threshold, 3);
    assert_eq!(h.max_expiry, 500);
    assert_eq!(process_update_multisig(&payer, &mut multisig, &upd(1, 4, 0)), Err(MultisigError::InvalidData));
    let stranger = account(key(5), 0, false);
    assert_eq!(process_update_multisig(&stranger, &mut multisig, &upd(1, 1, 9)), Err(MultisigError::Unauthorized));
}

#[test]
fn init_without_enough_member_inputs() {
    let mut payer = account(key(1), 1_000_000_000, true);
    let mut multisig = account(multisig_pda(7, 1), 0, false);
    let mut treasury = account(treasury_pda(&multisig_pda(7, 1), 2), 0, false);
    let data = [500u64.to_le_bytes().to_vec(), 7u16.to_le_bytes().to_vec(), vec![1, 3, 1, 0, 0, 0]].concat();
    let r = process_init_multisig_instruction(
        &mut payer, &mut multisig, &mut treasury, &vec![key(3)], &data,
        1, 2,
        rent(MultisigState::LEN), rent(MultisigState::LEN + 96),
    );
    assert_eq!(r, Err(MultisigError::InsufficientInputs));
    assert!(multisig.data.is_empty());
}

#[test]
fn init_rejects_wrong_addresses_and_unsigned_creator() {
    let data = [500u64.to_le_bytes().to_vec(), 7u16.to_le_bytes().to_vec(), vec![1, 0, 0, 0, 0, 0]].concat();
    let mut payer = account(key(1), 1_000_000_000, true);
    let mut multisig = account(multisig_pda(7, 1), 0, false);
    let mut treasury = account(treasury_pda(&multisig_pda(7, 1), 2), 0, false);
    let r = process_init_multisig_instruction(
        &mut payer, &mut multisig, &mut treasury, &vec![], &data,
        1, 3,
        rent(MultisigState::LEN), rent(MultisigState::LEN),
    );
    assert_eq!(r, Err(MultisigError::AddressMismatch));
    payer.is_signer = false;
    let r = process_init_multisig_instruction(
        &mut payer, &mut multisig, &mut treasury, &vec![], &data,
        1, 2,
        rent(MultisigState::LEN), rent(MultisigState::LEN),
    );
    assert_eq!(r, Err(MultisigError::Unauthorized));
}

#[test]
fn init_funds_group_and_treasury() {
    let mut payer = account(key(1), 10_000_000, true);
    let mut multisig = account(multisig_pda(7, 1), 0, false);
    let mut treasury = account(treasury_pda(&multisig_pda(7, 1), 2), 0, false);
    let data = [500u64.to_le_bytes().to_vec(), 7u16.to_le_bytes().to_vec(), vec![1, 2, 1, 0, 0, 0]].concat();
    let r = process_init_multisig_instruction(
        &mut payer, &mut multisig, &mut treasury, &vec![key(3), key(4)], &data,
        1, 2,
        rent(MultisigState::LEN), rent(MultisigState::LEN + 64),
    );
    assert_eq!(r, Ok(()));
    assert_eq!(multisig.lamports, rent(MultisigState::LEN + 64));
    assert_eq!(treasury.lamports, rent(MultisigState::LEN));
    assert_eq!(treasury.data, vec![0u8; MultisigState::LEN]);
    assert_eq!(payer.lamports, 10_000_000 - rent(MultisigState::LEN + 64) - rent(MultisigState::LEN));
    let h = MultisigState::from_bytes(&multisig.data).unwrap();
    assert_eq!(h.treasury, treasury_pda(&multisig_pda(7, 1), 2));
    assert_eq!((h.treasury_bump, h.bump, h.primary_seed, h.members_counter), (2, 1, 7, 2));
    let mut poor = account(key(1), 100, true);
    let mut m2 = account(multisig_pda(7, 1), 0, false);
    let mut t2 = account(treasury_pda(&multisig_pda(7, 1), 2), 0, false);
    let r = process_init_multisig_instruction(
        &mut poor, &mut m2, &mut t2, &vec![], &[500u64.to_le_bytes().to_vec(), vec![7, 0, 1, 0, 0, 0, 0, 0]].concat(),
        1, 2,
        rent(MultisigState::LEN), rent(MultisigState::LEN),
    );
    assert_eq!(r, Err(MultisigError::InsufficientFunds));
}

#[test]
fn group_header_round_trip() {
    let h = MultisigState {
        seed: 0x0102030405060708,
        admin_spending_limit: u64::MAX,
        max_expiry: 1_000_000,
        transaction_index: 3,
        stale_transaction_index: 2,
        primary_seed: 0xBEEF,
        admin: key(7),
        treasury: key(8),
        treasury_bump: 9,
        bump: 10,
        min_threshold: 11,
        num_members: 12,
        members_counter: 13,
        admin_counter: 14,
    };
    let bytes = h.to_bytes();
    assert_eq!(bytes.len(), MultisigState::LEN);
    assert_eq!(&bytes[0..8], &0x0102030405060708u64.to_le_bytes());
    assert_eq!(bytes[111], 14);
    let back = MultisigState::from_bytes(&bytes).unwrap();
    assert_eq!(back.to_bytes(), bytes);
    assert_eq!((back.seed, back.primary_seed, back.admin, back.treasury, back.admin_counter), (h.seed, h.primary_seed, h.admin, h.treasury, 14));
    assert_eq!(MultisigState::from_bytes(&bytes[..111]).err(), Some(MultisigError::InvalidData));
}

#[test]
fn proposal_header_round_trip() {
    let p = ProposalState {
        proposal_id: 513,
        expiry: 99,
        created_time: 1_700_000_000,
        status: ProposalStatus::Succeeded,
        bump: 4,
        yes_votes: 5,
        no_votes: 6,
        _padding: [0; 4],
    };
    let bytes = p.to_bytes();
    assert_eq!(bytes.len(), ProposalState::LEN);
    assert_eq!((bytes[0], bytes[1], bytes[18], bytes[20], bytes[21]), (1, 2, 3, 5, 6));
    let back = ProposalState::from_bytes(&bytes).unwrap();
    assert_eq!(back.to_bytes(), bytes);
    assert_eq!(back.status, ProposalStatus::Succeeded);
    let mut bad = bytes.clone();
    bad[18] = 9;
    assert_eq!(ProposalState::from_bytes(&bad).err(), Some(MultisigError::InvalidData));
}

#[test]
fn member_entry_round_trip() {
    let m = MemberState { pubkey: key(33) };
    let bytes = m.to_bytes().unwrap();
    assert_eq!(MemberState::from_bytes(&bytes).unwrap().pubkey, key(33));
    assert!(MemberState::from_bytes(&bytes[..31]).is_err());
    assert_eq!(MemberRole::from_u8(1), MemberRole::Admin);
    assert_eq!(MemberRole::from_u8(0), MemberRole::Member);
}

#[test]
fn opcodes_decode() {
    assert_eq!(MultisigInstructions::try_from(&0), Ok(MultisigInstructions::InitMultisig));
    assert_eq!(MultisigInstructions::try_from(&3), Ok(MultisigInstructions::Vote));
    assert_eq!(MultisigInstructions::try_from(&1), Err(MultisigError::InvalidData));
    assert_eq!(ProposalStatus::try_from(&4), Ok(ProposalStatus::Cancelled));
}

#[test]
fn transaction_buffer_is_created_and_filled() {
    let mut payer = account(key(1), 100_000_000, true);
    let mut tx = account(transaction_pda(&key(1), 77), 0, false);
    let mut buffer = vec![0u8; 512];
    buffer[0] = 0xAA;
    buffer[511] = 0xBB;
    let data = [9u64.to_le_bytes().to_vec(), buffer.clone(), 300u16.to_le_bytes().to_vec(), vec![0; 6]].concat();
    let r = process_create_transaction(&mut payer, &mut tx, &data, 77, rent(TransactionState::LEN));
    assert_eq!(r, Ok(()));
    let s = TransactionState::from_bytes(&tx.data).unwrap();
    assert_eq!((s.transaction_index, s.buffer_size, s.bump), (9, 300, 77));
    assert_eq!(s.tx_buffer.to_vec(), buffer);
    assert_eq!(s.to_bytes(), tx.data);
    assert_eq!(tx.lamports, rent(TransactionState::LEN));
    let r = process_create_transaction(&mut payer, &mut tx, &data, 77, rent(TransactionState::LEN));
    assert_eq!(r, Err(MultisigError::AlreadyExists));
}

#[test]
fn closing_moves_the_balance() {
    let (_payer, mut multisig) = empty_group();
    let mut dest = account(key(3), 10, false);
    let lamports = multisig.lamports;
    assert_eq!(close_account(&mut multisig, &mut dest), Ok(()));
    assert_eq!(dest.lamports, 10 + lamports);
    assert_eq!(multisig.lamports, 0);
    assert!(multisig.data.is_empty());
    assert_eq!(close_account(&mut multisig, &mut dest), Err(MultisigError::InvalidData));
}

#[test]
fn proposal_header_keeps_its_filler() {
    let p = ProposalState {
        proposal_id: 1,
        expiry: 2,
        created_time: 3,
        status: ProposalStatus::Active,
        bump: 4,
        yes_votes: 0,
        no_votes: 0,
        _padding: [1, 2, 3, 4],
    };
    let bytes = p.to_bytes();
    assert_eq!(&bytes[22..26], &[1, 2, 3, 4]);
    let back = ProposalState::from_bytes(&bytes).unwrap();
    assert_eq!(back._padding, [1, 2, 3, 4]);
    assert_eq!(back.to_bytes(), bytes);
}

#[test]
fn new_header_has_no_members_yet() {
    let ix = pinocchio_multisig::InitMultisigIxData {
        max_expiry: 10,
        primary_seed: 3,
        min_threshold: 2,
        num_members: 5,
        num_admins: 2,
    };
    let mut h = MultisigState::from_bytes(&[0xFFu8; 112]).unwrap();
    h.new(&key(8), 1, 2, &ix);
    assert_eq!((h.num_members, h.members_counter, h.admin_counter), (0, 0, 0));
    assert_eq!((h.max_expiry, h.primary_seed, h.min_threshold), (10, 3, 2));
    assert_eq!(h.admin, [0u8; 32]);
    assert_eq!(h.seed, u64::MAX);
}

#[test]
fn derived_addresses_are_checked() {
    assert_eq!(validate_multisig_pda(&multisig_pda(7, 1), 1, 7), Ok(()));
    assert_eq!(validate_multisig_pda(&multisig_pda(7, 1), 1, 8), Err(MultisigError::AddressMismatch));
    let ms = multisig_pda(7, 1);
    assert_eq!(validate_treasury_pda(&treasury_pda(&ms, 2), 2, &ms), Ok(()));
    assert_eq!(validate_treasury_pda(&ms, 2, &ms), Err(MultisigError::AddressMismatch));
    assert_eq!(validate_transaction_pda(&transaction_pda(&key(1), 3), 3, &key(1)), Ok(()));
    assert_eq!(validate_transaction_pda(&transaction_pda(&key(1), 3), 3, &key(2)), Err(MultisigError::AddressMismatch));
}
