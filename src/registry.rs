//! The group record: a header followed by the member array, whose front part
//! holds the admins and whose back part holds the regular members.
use vstd::prelude::*;
use crate::address::{multisig_address, treasury_address, validate_multisig_pda, validate_treasury_pda};
use crate::codec::{key_from, lemma_key_from, push_bytes, read_key, Pubkey, KEY_LEN};
use crate::dense::{entries, find_entry, grow_slot, insert_entry, lemma_entries_agree, lemma_entries_push, remove_entry, shrink_slot, swap_entries, zero_slot};
use crate::error::MultisigError;
use crate::instructions::{InitMultisigIxData, UpdateMemberIxData, UpdateMultisigIxData};
use crate::member::{spec_role, MemberRole};
use crate::multisig::MultisigState;

verus! {

/// A storage record as the host hands it over: its identity, its balance,
/// its bytes, and whether it signed the operation and belongs to this program.
#[derive(Clone, Debug)]
pub struct AccountRecord {
    pub key: Pubkey,
    pub lamports: u64,
    pub data: Vec<u8>,
    pub is_signer: bool,
    pub program_owned: bool,
}

/// Where the member array of a group record starts.
pub const MEMBERS_OFFSET: usize = 112;

/// The header of a group record.
pub open spec fn group_header(d: Seq<u8>) -> MultisigState {
    MultisigState::spec_from_bytes(d)
}

/// A group record whose header decodes, whose admin count fits in the member
/// count, and whose length is that of the header and the member array.
pub open spec fn group_wf(d: Seq<u8>) -> bool {
    &&& d.len() >= MEMBERS_OFFSET
    &&& group_header(d).admin_counter <= group_header(d).num_members
    &&& d.len() == MEMBERS_OFFSET + 32 * group_header(d).num_members
}

/// The member array of a group record.
pub open spec fn members(d: Seq<u8>) -> Seq<Seq<u8>> {
    entries(d, MEMBERS_OFFSET as int, group_header(d).num_members as int)
}

/// The admins: the front part of the member array.
pub open spec fn admins(d: Seq<u8>) -> Seq<Seq<u8>> {
    members(d).take(group_header(d).admin_counter as int)
}

/// The regular members: the back part of the member array.
pub open spec fn regular_members(d: Seq<u8>) -> Seq<Seq<u8>> {
    members(d).skip(group_header(d).admin_counter as int)
}

/// The balance a record must receive so that it holds `min_balance`.
pub open spec fn top_up(lamports: u64, min_balance: u64) -> u64 {
    if lamports < min_balance {
        (min_balance - lamports) as u64
    } else {
        0
    }
}

/// Two records whose first header bytes agree hold the same header.
pub proof fn lemma_header_prefix(d1: Seq<u8>, d2: Seq<u8>)
    requires
        d1.len() >= MEMBERS_OFFSET,
        d2.len() >= MEMBERS_OFFSET,
        d1.subrange(0, MEMBERS_OFFSET as int) == d2.subrange(0, MEMBERS_OFFSET as int),
    ensures
        group_header(d1) == group_header(d2),
{
    let p = d1.subrange(0, MEMBERS_OFFSET as int);
    assert forall|a: int, b: int| 0 <= a <= b <= MEMBERS_OFFSET implies d1.subrange(a, b)
        == d2.subrange(a, b) by {
        assert(d1.subrange(a, b) =~= p.subrange(a, b));
        assert(d2.subrange(a, b) =~= p.subrange(a, b));
    }
    assert(d1[106] == p[106] && d1[107] == p[107] && d1[108] == p[108]);
    assert(d1[109] == p[109] && d1[110] == p[110] && d1[111] == p[111]);
    assert(d2[106] == p[106] && d2[107] == p[107] && d2[108] == p[108]);
    assert(d2[109] == p[109] && d2[110] == p[110] && d2[111] == p[111]);
}

/// Rewrites the header of a group record with `h`.
pub fn write_header(d: &mut Vec<u8>, h: &MultisigState)
    requires
        old(d)@.len() >= MEMBERS_OFFSET,
    ensures
        final(d)@.len() == old(d)@.len(),
        group_header(final(d)@) == *h,
        final(d)@.subrange(MEMBERS_OFFSET as int, final(d)@.len() as int) == old(d)@.subrange(
            MEMBERS_OFFSET as int,
            old(d)@.len() as int,
        ),
        forall|n: int|
            0 <= n && MEMBERS_OFFSET + 32 * n <= old(d)@.len() ==> entries(
                final(d)@,
                MEMBERS_OFFSET as int,
                n,
            ) == entries(old(d)@, MEMBERS_OFFSET as int, n),
{
    let bytes = h.to_bytes();
    let len = d.len();
    let mut i: usize = 0;
    while i < MultisigState::LEN
        invariant
            i <= MultisigState::LEN,
            bytes@ == h.spec_bytes(),
            bytes@.len() == MultisigState::LEN,
            len == old(d)@.len(),
            MEMBERS_OFFSET <= old(d)@.len(),
            d@.len() == old(d)@.len(),
            forall|p: int| 0 <= p < i ==> d@[p] == bytes@[p],
            forall|p: int| i <= p < d@.len() ==> d@[p] == old(d)@[p],
        decreases MultisigState::LEN - i,
    {
        d[i] = bytes[i];
        i += 1;
    }
    proof {
        h.lemma_round_trip();
        assert(d@.subrange(0, MEMBERS_OFFSET as int) =~= h.spec_bytes());
        assert(h.spec_bytes().subrange(0, MEMBERS_OFFSET as int) =~= h.spec_bytes());
        lemma_header_prefix(d@, h.spec_bytes());
        assert(d@.subrange(MEMBERS_OFFSET as int, d@.len() as int) =~= old(d)@.subrange(
            MEMBERS_OFFSET as int,
            old(d)@.len() as int,
        ));
        assert forall|n: int|
            0 <= n && MEMBERS_OFFSET + 32 * n <= old(d)@.len() implies entries(
            d@,
            MEMBERS_OFFSET as int,
            n,
        ) == entries(old(d)@, MEMBERS_OFFSET as int, n) by {
            lemma_entries_agree(d@, old(d)@, MEMBERS_OFFSET as int, n);
        }
    }
}

/// Reads the header of a group record and checks that the record is well formed.
pub fn load_group(d: &Vec<u8>) -> (r: Result<MultisigState, MultisigError>)
    ensures
        r == (if group_wf(d@) {
            Ok(group_header(d@))
        } else {
            Err(MultisigError::InvalidData)
        }),
{
    let h = MultisigState::from_bytes(d.as_slice())?;
    if h.admin_counter > h.num_members || d.len() != MEMBERS_OFFSET + KEY_LEN
        * h.num_members as usize {
        return Err(MultisigError::InvalidData);
    }
    Ok(h)
}

/// The member array after `k` joined with `role`: an admin goes to the end of
/// the admin part, a regular member to the end of the array.
pub open spec fn members_after_add(
    m: Seq<Seq<u8>>,
    admin_counter: u8,
    k: Seq<u8>,
    role: MemberRole,
) -> Seq<Seq<u8>> {
    if role == MemberRole::Admin {
        m.insert(admin_counter as int, k)
    } else {
        m.push(k)
    }
}

/// Why adding the member that `data` names fails, if it does.
pub open spec fn add_member_error(
    d: Seq<u8>,
    lamports: u64,
    payer_lamports: u64,
    min_balance: u64,
    data: Seq<u8>,
) -> Option<MultisigError> {
    if data.len() < 33 || !group_wf(d) {
        Some(MultisigError::InvalidData)
    } else if members(d).contains(data.subrange(0, 32)) {
        Some(MultisigError::DuplicateEntry)
    } else if group_header(d).num_members == 255 {
        Some(MultisigError::Overflow)
    } else if payer_lamports < top_up(lamports, min_balance) {
        Some(MultisigError::InsufficientFunds)
    } else {
        None
    }
}

/// What a successful addition leaves: the payer `p_pre` and group `m_pre` before,
/// `p_post` and `m_post` after.
pub open spec fn added(
    p_pre: AccountRecord,
    m_pre: AccountRecord,
    p_post: AccountRecord,
    m_post: AccountRecord,
    min_balance: u64,
    data: Seq<u8>,
) -> bool {
    let d = m_pre.data@;
    let h = group_header(d);
    let k = data.subrange(0, 32);
    let role = spec_role(data[32]);
    let t = top_up(m_pre.lamports, min_balance);
    &&& group_wf(m_post.data@)
    &&& m_post.data@.len() == d.len() + 32
    &&& members(m_post.data@) == members_after_add(
        members(d),
        h.admin_counter,
        k,
        role,
    )
    &&& group_header(m_post.data@) == (MultisigState {
        num_members: (h.num_members + 1) as u8,
        admin_counter: if role == MemberRole::Admin {
            (h.admin_counter + 1) as u8
        } else {
            h.admin_counter
        },
        ..h
    })
    &&& m_post.lamports == m_pre.lamports + t
    &&& m_post.lamports >= min_balance
    &&& p_post.lamports == p_pre.lamports - t
    &&& m_post.key == m_pre.key
    &&& m_post.is_signer == m_pre.is_signer
    &&& m_post.program_owned == m_pre.program_owned
    &&& p_post.key == p_pre.key
    &&& p_post.data@ == p_pre.data@
}

/// Adds the identity in the first 32 bytes of `data` to the group, as an admin
/// if byte 32 is 1 and as a regular member otherwise. The record grows by one
/// entry; beforehand the payer tops its balance up to `min_balance`, the
/// minimum deposit for the grown size.
pub fn add_member(
    payer: &mut AccountRecord,
    multisig: &mut AccountRecord,
    min_balance: u64,
    data: &[u8],
) -> (r: Result<(), MultisigError>)
    ensures
        r == (match add_member_error(
            old(multisig).data@,
            old(multisig).lamports,
            old(payer).lamports,
            min_balance,
            data@,
        ) {
            Some(e) => Err(e),
            None => Ok(()),
        }),
        r is Err ==> *final(multisig) == *old(multisig) && *final(payer) == *old(payer),
        r is Ok ==> added(*old(payer), *old(multisig), *final(payer), *final(multisig), min_balance, data@),
{
    if data.len() < 33 {
        return Err(MultisigError::InvalidData);
    }
    let mut h = load_group(&multisig.data)?;
    let ghost h0 = h;
    let key = read_key(data, 0);
    let role = MemberRole::from_u8(data[32]);
    let n = h.num_members as usize;
    let ac = h.admin_counter as usize;
    if find_entry(&multisig.data, MEMBERS_OFFSET, n, &key).is_some() {
        return Err(MultisigError::DuplicateEntry);
    }
    if h.num_members == 255 {
        return Err(MultisigError::Overflow);
    }
    let t: u64 = if multisig.lamports < min_balance {
        min_balance - multisig.lamports
    } else {
        0
    };
    if payer.lamports < t {
        return Err(MultisigError::InsufficientFunds);
    }
    payer.lamports = payer.lamports - t;
    multisig.lamports = multisig.lamports + t;
    let ghost d0 = multisig.data@;
    grow_slot(&mut multisig.data);
    proof {
        lemma_entries_agree(multisig.data@, d0, MEMBERS_OFFSET as int, n as int);
    }
    let pos = match role {
        MemberRole::Admin => ac,
        MemberRole::Member => n,
    };
    insert_entry(&mut multisig.data, MEMBERS_OFFSET, n, pos, &key);
    h.num_members = h.num_members + 1;
    if let MemberRole::Admin = role {
        h.admin_counter = h.admin_counter + 1;
    }
    write_header(&mut multisig.data, &h);
    proof {
        let d = multisig.data@;
        assert(members(d) == entries(d, MEMBERS_OFFSET as int, n + 1));
        assert(members(d0) == entries(d0, MEMBERS_OFFSET as int, n as int));
        assert(members(d) =~= members_after_add(members(d0), h0.admin_counter, key@, role));
    }
    Ok(())
}

/// The index of the first occurrence of `k` in `m`.
pub open spec fn first_index(m: Seq<Seq<u8>>, k: Seq<u8>) -> int {
    choose|i: int| 0 <= i < m.len() && m[i] == k && forall|j: int| 0 <= j < i ==> m[j] != k
}

/// The member array after entry `i` left: it trades places with the last
/// entry of its own part, which then closes up.
pub open spec fn members_after_remove(m: Seq<Seq<u8>>, admin_counter: u8, i: int) -> Seq<
    Seq<u8>,
> {
    let last = if i < admin_counter {
        admin_counter - 1
    } else {
        m.len() - 1
    };
    m.update(i, m[last]).update(last, m[i]).remove(last)
}

/// Why removing the member that `data` names fails, if it does.
pub open spec fn remove_member_error(d: Seq<u8>, data: Seq<u8>) -> Option<MultisigError> {
    if data.len() < 32 || !group_wf(d) {
        Some(MultisigError::InvalidData)
    } else if !members(d).contains(data.subrange(0, 32)) {
        Some(MultisigError::NotFound)
    } else {
        None
    }
}

/// What a successful removal leaves: the group `m_pre` before, `m_post` after.
pub open spec fn removed(m_pre: AccountRecord, m_post: AccountRecord, data: Seq<u8>) -> bool {
    let d = m_pre.data@;
    let h = group_header(d);
    let i = first_index(members(d), data.subrange(0, 32));
    &&& group_wf(m_post.data@)
    &&& m_post.data@.len() == d.len() - 32
    &&& members(m_post.data@) == members_after_remove(
        members(d),
        h.admin_counter,
        i,
    )
    &&& group_header(m_post.data@) == (MultisigState {
        num_members: (h.num_members - 1) as u8,
        admin_counter: if i < h.admin_counter {
            (h.admin_counter - 1) as u8
        } else {
            h.admin_counter
        },
        ..h
    })
    &&& m_post.lamports == m_pre.lamports
    &&& m_post.key == m_pre.key
    &&& m_post.is_signer == m_pre.is_signer
    &&& m_post.program_owned == m_pre.program_owned
}

/// Removes the identity in the first 32 bytes of `data` from the group. An
/// admin trades places with the last admin, the regular members close the gap
/// at the old boundary, and the admin count drops; a regular member trades
/// places with the last entry. The vacated slot is zeroed and the record
/// shrinks by one entry; its balance stays.
pub fn remove_member(multisig: &mut AccountRecord, data: &[u8]) -> (r: Result<(), MultisigError>)
    ensures
        r == (match remove_member_error(old(multisig).data@, data@) {
            Some(e) => Err(e),
            None => Ok(()),
        }),
        r is Err ==> *final(multisig) == *old(multisig),
        r is Ok ==> removed(*old(multisig), *final(multisig), data@),
{
    if data.len() < 32 {
        return Err(MultisigError::InvalidData);
    }
    let mut h = load_group(&multisig.data)?;
    let ghost h0 = h;
    let ghost d0 = multisig.data@;
    let key = read_key(data, 0);
    let n = h.num_members as usize;
    let ac = h.admin_counter as usize;
    let idx = match find_entry(&multisig.data, MEMBERS_OFFSET, n, &key) {
        Some(i) => i,
        None => {
            return Err(MultisigError::NotFound);
        },
    };
    proof {
        let m = members(d0);
        let fi = first_index(m, key@);
        assert(0 <= fi < m.len() && m[fi] == key@ && forall|j: int| 0 <= j < fi ==> m[j] != key@);
        assert(fi == idx as int);
    }
    let last = if idx < ac {
        ac - 1
    } else {
        n - 1
    };
    swap_entries(&mut multisig.data, MEMBERS_OFFSET, n, idx, last);
    remove_entry(&mut multisig.data, MEMBERS_OFFSET, n, last);
    let ghost d1 = multisig.data@;
    shrink_slot(&mut multisig.data);
    proof {
        lemma_entries_agree(multisig.data@, d1, MEMBERS_OFFSET as int, n - 1);
    }
    if idx < ac {
        h.admin_counter = h.admin_counter - 1;
    }
    h.num_members = h.num_members - 1;
    write_header(&mut multisig.data, &h);
    proof {
        let d = multisig.data@;
        assert(members(d) == entries(d, MEMBERS_OFFSET as int, n - 1));
        assert(members(d) =~= members_after_remove(members(d0), h0.admin_counter, idx as int));
    }
    Ok(())
}

/// Applies a member update payload: operation 1 adds the member described by
/// the remaining 33 bytes, operation 2 removes the member whose identity is in
/// the 32 bytes after the operation.
pub fn process_update_member(
    payer: &mut AccountRecord,
    multisig: &mut AccountRecord,
    min_balance: u64,
    data: &[u8],
) -> (r: Result<(), MultisigError>)
    ensures
        data@.len() != UpdateMemberIxData::LEN ==> r == Err::<(), MultisigError>(
            MultisigError::InvalidData,
        ),
        data@.len() == UpdateMemberIxData::LEN && data@[0] != 1 && data@[0] != 2 ==> r == Err::<
            (),
            MultisigError,
        >(MultisigError::InvalidData),
        data@.len() == UpdateMemberIxData::LEN && data@[0] == 1 ==> r == (match add_member_error(
            old(multisig).data@,
            old(multisig).lamports,
            old(payer).lamports,
            min_balance,
            data@.subrange(1, 34),
        ) {
            Some(e) => Err(e),
            None => Ok(()),
        }),
        data@.len() == UpdateMemberIxData::LEN && data@[0] == 1 && r is Ok ==> added(
            *old(payer),
            *old(multisig),
            *final(payer),
            *final(multisig),
            min_balance,
            data@.subrange(1, 34),
        ),
        data@.len() == UpdateMemberIxData::LEN && data@[0] == 2 ==> r == (match remove_member_error(
            old(multisig).data@,
            data@.subrange(1, 34),
        ) {
            Some(e) => Err(e),
            None => Ok(()),
        }),
        data@.len() == UpdateMemberIxData::LEN && data@[0] == 2 && r is Ok ==> removed(
            *old(multisig),
            *final(multisig),
            data@.subrange(1, 34),
        ) && *final(payer) == *old(payer),
        r is Err ==> *final(multisig) == *old(multisig) && *final(payer) == *old(payer),
{
    let ix_data = UpdateMemberIxData::from_bytes(data)?;
    if ix_data.operation == 1 {
        add_member(payer, multisig, min_balance, &ix_data.member_data)
    } else if ix_data.operation == 2 {
        remove_member(multisig, &ix_data.member_data)
    } else {
        Err(MultisigError::InvalidData)
    }
}

/// The header after a configuration update, if the update kind is known:
/// 1 sets the threshold, 2 the spending limit, 3 the stale transaction index.
pub open spec fn header_after_update(h: MultisigState, ix: UpdateMultisigIxData) -> Option<
    MultisigState,
> {
    if ix.update_type == 1 {
        Some(MultisigState { min_threshold: ix.threshold, ..h })
    } else if ix.update_type == 2 {
        Some(MultisigState { admin_spending_limit: ix.value, ..h })
    } else if ix.update_type == 3 {
        Some(MultisigState { stale_transaction_index: ix.value, ..h })
    } else {
        None
    }
}

/// Why a configuration update fails, if it does.
pub open spec fn update_multisig_error(payer_is_signer: bool, d: Seq<u8>, data: Seq<u8>) -> Option<
    MultisigError,
> {
    if !payer_is_signer {
        Some(MultisigError::Unauthorized)
    } else if data.len() != UpdateMultisigIxData::LEN || d.len() < MultisigState::LEN {
        Some(MultisigError::InvalidData)
    } else if header_after_update(group_header(d), UpdateMultisigIxData::spec_from_bytes(data)) is None {
        Some(MultisigError::InvalidData)
    } else {
        None
    }
}

/// Applies a group configuration update signed by `payer`. Only the header
/// changes; the member array and the balance stay.
pub fn process_update_multisig(
    payer: &AccountRecord,
    multisig: &mut AccountRecord,
    data: &[u8],
) -> (r: Result<(), MultisigError>)
    ensures
        r == (match update_multisig_error(payer.is_signer, old(multisig).data@, data@) {
            Some(e) => Err(e),
            None => Ok(()),
        }),
        r is Err ==> *final(multisig) == *old(multisig),
        r is Ok ==> {
            &&& group_header(final(multisig).data@) == header_after_update(
                group_header(old(multisig).data@),
                UpdateMultisigIxData::spec_from_bytes(data@),
            )->Some_0
            &&& final(multisig).data@.len() == old(multisig).data@.len()
            &&& final(multisig).data@.subrange(MEMBERS_OFFSET as int, final(multisig).data@.len() as int)
                == old(multisig).data@.subrange(MEMBERS_OFFSET as int, old(multisig).data@.len() as int)
            &&& (group_wf(old(multisig).data@) ==> group_wf(final(multisig).data@) && members(
                final(multisig).data@,
            ) == members(old(multisig).data@))
            &&& final(multisig).lamports == old(multisig).lamports
            &&& final(multisig).key == old(multisig).key
            &&& final(multisig).is_signer == old(multisig).is_signer
            &&& final(multisig).program_owned == old(multisig).program_owned
        },
{
    if !payer.is_signer {
        return Err(MultisigError::Unauthorized);
    }
    let ix_data = UpdateMultisigIxData::from_bytes(data)?;
    let mut h = MultisigState::from_bytes(multisig.data.as_slice())?;
    if ix_data.update_type == 1 {
        h.update_threshold(ix_data.threshold);
    } else if ix_data.update_type == 2 {
        h.update_spending_limit(ix_data.value);
    } else if ix_data.update_type == 3 {
        h.update_stale_transaction_index(ix_data.value);
    } else {
        return Err(MultisigError::InvalidData);
    }
    write_header(&mut multisig.data, &h);
    Ok(())
}

/// The balance that creating a record of `min_balance` adds, if it fits.
pub open spec fn fits_after_deposit(lamports: u64, min_balance: u64) -> bool {
    lamports + min_balance <= u64::MAX
}

/// What the creator pays to set up a group of `n` members: the header-only
/// group record, its top-up to the grown size, and the treasury record.
pub open spec fn init_cost(
    multisig_lamports: u64,
    n: u8,
    header_min_balance: u64,
    full_min_balance: u64,
) -> int {
    header_min_balance + (if n > 0 {
        top_up((multisig_lamports + header_min_balance) as u64, full_min_balance) as int
    } else {
        0
    }) + header_min_balance
}

/// Why initializing a group fails, if it does.
pub open spec fn init_error(
    creator: AccountRecord,
    multisig: AccountRecord,
    treasury: AccountRecord,
    remaining: Seq<Pubkey>,
    data: Seq<u8>,
    multisig_bump: u8,
    treasury_bump: u8,
    header_min_balance: u64,
    full_min_balance: u64,
) -> Option<MultisigError> {
    let ix = InitMultisigIxData::spec_from_bytes(data);
    if !creator.is_signer {
        Some(MultisigError::Unauthorized)
    } else if multisig.data@.len() != 0 {
        Some(MultisigError::AlreadyExists)
    } else if data.len() != InitMultisigIxData::LEN || ix.num_members < ix.num_admins {
        Some(MultisigError::InvalidData)
    } else if multisig.key@ != multisig_address(ix.primary_seed, multisig_bump) || treasury.key@
        != treasury_address(multisig.key, treasury_bump) {
        Some(MultisigError::AddressMismatch)
    } else if remaining.len() < ix.num_members {
        Some(MultisigError::InsufficientInputs)
    } else if treasury.data@.len() != 0 {
        Some(MultisigError::AlreadyExists)
    } else if !fits_after_deposit(multisig.lamports, header_min_balance) || !fits_after_deposit(
        treasury.lamports,
        header_min_balance,
    ) {
        Some(MultisigError::Overflow)
    } else if creator.lamports < init_cost(
        multisig.lamports,
        ix.num_members,
        header_min_balance,
        full_min_balance,
    ) {
        Some(MultisigError::InsufficientFunds)
    } else {
        None
    }
}

/// The header of a group made from payload `ix`.
pub open spec fn initial_header(
    ix: InitMultisigIxData,
    treasury: Pubkey,
    treasury_bump: u8,
    multisig_bump: u8,
) -> MultisigState {
    MultisigState {
        seed: 0,
        admin_spending_limit: 0,
        max_expiry: ix.max_expiry,
        transaction_index: 0,
        stale_transaction_index: 0,
        primary_seed: ix.primary_seed,
        admin: key_from(zero_slot()),
        treasury,
        treasury_bump,
        bump: multisig_bump,
        min_threshold: ix.min_threshold,
        num_members: ix.num_members,
        members_counter: ix.num_members,
        admin_counter: ix.num_admins,
    }
}

/// Identities as byte sequences.
pub open spec fn key_views(keys: Seq<Pubkey>) -> Seq<Seq<u8>> {
    keys.map_values(|k: Pubkey| k@)
}

/// Appends the first `n` identities of `remaining` to a header-only group
/// record, in order, as its member array.
fn add_all_members(d: &mut Vec<u8>, remaining: &Vec<Pubkey>, n: usize)
    requires
        old(d)@.len() == MEMBERS_OFFSET,
        n <= remaining@.len(),
    ensures
        final(d)@.len() == MEMBERS_OFFSET + 32 * n,
        final(d)@.subrange(0, MEMBERS_OFFSET as int) == old(d)@,
        entries(final(d)@, MEMBERS_OFFSET as int, n as int) == key_views(remaining@.take(n as int)),
{
    proof {
        assert(entries(d@, MEMBERS_OFFSET as int, 0) =~= key_views(remaining@.take(0)));
        assert(d@.subrange(0, MEMBERS_OFFSET as int) =~= old(d)@);
    }
    let mut i: usize = 0;
    while i < n
        invariant
            i <= n,
            n <= remaining@.len(),
            d@.len() == MEMBERS_OFFSET + 32 * i,
            d@.subrange(0, MEMBERS_OFFSET as int) == old(d)@,
            old(d)@.len() == MEMBERS_OFFSET,
            entries(d@, MEMBERS_OFFSET as int, i as int) == key_views(remaining@.take(i as int)),
        decreases n - i,
    {
        let ghost d0 = d@;
        push_bytes(d, &remaining[i]);
        proof {
            lemma_entries_push(d0, MEMBERS_OFFSET as int, i as int, remaining@[i as int]@);
            assert(key_views(remaining@.take(i + 1)) =~= key_views(remaining@.take(i as int)).push(
                remaining@[i as int]@,
            ));
            assert(d@.subrange(0, MEMBERS_OFFSET as int) =~= d0.subrange(0, MEMBERS_OFFSET as int));
        }
        i += 1;
    }
}

/// Creates a group record at `multisig` and its treasury record at
/// `treasury`, both paid for by `creator`, after checking the signature, the
/// payload and the two derived addresses. The first `num_members` identities
/// of `remaining` become the member array, the first `num_admins` of them the
/// admins. `header_min_balance` is the minimum deposit for a header-only
/// record, `full_min_balance` that for the record with its members.
pub fn process_init_multisig_instruction(
    creator: &mut AccountRecord,
    multisig: &mut AccountRecord,
    treasury: &mut AccountRecord,
    remaining: &Vec<Pubkey>,
    data: &[u8],
    multisig_bump: u8,
    treasury_bump: u8,
    header_min_balance: u64,
    full_min_balance: u64,
) -> (r: Result<(), MultisigError>)
    ensures
        r == (match init_error(
            *old(creator),
            *old(multisig),
            *old(treasury),
            remaining@,
            data@,
            multisig_bump,
            treasury_bump,
            header_min_balance,
            full_min_balance,
        ) {
            Some(e) => Err(e),
            None => Ok(()),
        }),
        r is Err ==> *final(creator) == *old(creator) && *final(multisig) == *old(multisig)
            && *final(treasury) == *old(treasury),
        r is Ok ==> {
            let ix = InitMultisigIxData::spec_from_bytes(data@);
            let n = ix.num_members as int;
            let cost = init_cost(
                old(multisig).lamports,
                ix.num_members,
                header_min_balance,
                full_min_balance,
            );
            &&& group_wf(final(multisig).data@)
            &&& group_header(final(multisig).data@) == initial_header(
                ix,
                old(treasury).key,
                treasury_bump,
                multisig_bump,
            )
            &&& members(final(multisig).data@) == key_views(remaining@.take(n))
            &&& final(multisig).program_owned
            &&& final(multisig).lamports == old(multisig).lamports + cost - header_min_balance
            &&& final(multisig).lamports >= header_min_balance
            &&& (n > 0 ==> final(multisig).lamports >= full_min_balance)
            &&& final(multisig).key == old(multisig).key
            &&& final(treasury).data@ == Seq::new(MultisigState::LEN as nat, |_i: int| 0u8)
            &&& final(treasury).lamports == old(treasury).lamports + header_min_balance
            &&& final(treasury).program_owned
            &&& final(treasury).key == old(treasury).key
            &&& final(creator).lamports == old(creator).lamports - cost
            &&& final(creator).key == old(creator).key
        },
{
    check_signer(creator)?;
    if multisig.data.len() != 0 {
        return Err(MultisigError::AlreadyExists);
    }
    let ix_data = InitMultisigIxData::from_bytes(data)?;
    if ix_data.num_members < ix_data.num_admins {
        return Err(MultisigError::InvalidData);
    }
    validate_multisig_pda(&multisig.key, multisig_bump, ix_data.primary_seed)?;
    validate_treasury_pda(&treasury.key, treasury_bump, &multisig.key)?;
    let n = ix_data.num_members as usize;
    if remaining.len() < n {
        return Err(MultisigError::InsufficientInputs);
    }
    if treasury.data.len() != 0 {
        return Err(MultisigError::AlreadyExists);
    }
    if multisig.lamports > u64::MAX - header_min_balance || treasury.lamports > u64::MAX
        - header_min_balance {
        return Err(MultisigError::Overflow);
    }
    let created = multisig.lamports + header_min_balance;
    let t: u64 = if n > 0 && created < full_min_balance {
        full_min_balance - created
    } else {
        0
    };
    if creator.lamports < header_min_balance || creator.lamports - header_min_balance < t
        || creator.lamports - header_min_balance - t < header_min_balance {
        return Err(MultisigError::InsufficientFunds);
    }
    assert(t == (if ix_data.num_members > 0 {
        top_up(created, full_min_balance)
    } else {
        0
    }));
    creator.lamports = creator.lamports - header_min_balance - t - header_min_balance;
    multisig.lamports = created + t;
    multisig.program_owned = true;

    let mut h = MultisigState {
        seed: 0,
        admin_spending_limit: 0,
        max_expiry: 0,
        transaction_index: 0,
        stale_transaction_index: 0,
        primary_seed: 0,
        admin: [0u8; 32],
        treasury: [0u8; 32],
        treasury_bump: 0,
        bump: 0,
        min_threshold: 0,
        num_members: 0,
        members_counter: 0,
        admin_counter: 0,
    };
    h.new(&treasury.key, treasury_bump, multisig_bump, &ix_data);
    proof {
        assert(h.admin@ =~= zero_slot());
        lemma_key_from(h.admin);
    }
    let mut d = h.to_bytes();
    proof {
        h.lemma_round_trip();
    }
    add_all_members(&mut d, remaining, n);
    h.num_members = ix_data.num_members;
    h.members_counter = ix_data.num_members;
    h.admin_counter = ix_data.num_admins;
    write_header(&mut d, &h);
    multisig.data = d;

    let mut z: Vec<u8> = Vec::new();
    let mut j: usize = 0;
    while j < MultisigState::LEN
        invariant
            j <= MultisigState::LEN,
            z@ == Seq::new(j as nat, |_i: int| 0u8),
        decreases MultisigState::LEN - j,
    {
        z.push(0u8);
        j += 1;
        assert(z@ =~= Seq::new(j as nat, |_i: int| 0u8));
    }
    treasury.data = z;
    treasury.lamports = treasury.lamports + header_min_balance;
    treasury.program_owned = true;
    Ok(())
}

/// Succeeds exactly when `account` signed the operation.
pub fn check_signer(account: &AccountRecord) -> (r: Result<(), MultisigError>)
    ensures
        r == (if account.is_signer {
            Ok(())
        } else {
            Err(MultisigError::Unauthorized)
        }),
{
    if !account.is_signer {
        return Err(MultisigError::Unauthorized);
    }
    Ok(())
}

/// Closes `account`: its whole balance moves to `destination`, its bytes are
/// dropped and it no longer belongs to this program.
pub fn close_account(account: &mut AccountRecord, destination: &mut AccountRecord) -> (r: Result<
    (),
    MultisigError,
>)
    ensures
        r == (if old(account).data@.len() == 0 {
            Err(MultisigError::InvalidData)
        } else if old(destination).lamports + old(account).lamports > u64::MAX {
            Err(MultisigError::Overflow)
        } else {
            Ok(())
        }),
        r is Err ==> *final(account) == *old(account) && *final(destination) == *old(destination),
        r is Ok ==> {
            &&& final(destination).lamports == old(destination).lamports + old(account).lamports
            &&& final(destination).data == old(destination).data
            &&& final(destination).key == old(destination).key
            &&& final(destination).program_owned == old(destination).program_owned
            &&& final(account).lamports == 0
            &&& final(account).data@.len() == 0
            &&& !final(account).program_owned
            &&& final(account).key == old(account).key
        },
{
    if account.data.len() == 0 {
        return Err(MultisigError::InvalidData);
    }
    if destination.lamports > u64::MAX - account.lamports {
        return Err(MultisigError::Overflow);
    }
    destination.lamports = destination.lamports + account.lamports;
    account.lamports = 0;
    account.data = Vec::new();
    account.program_owned = false;
    Ok(())
}

} // verus!
