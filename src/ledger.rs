//! The proposal record: a header followed by the voter array, whose front
//! part holds the "yes" voters and whose back part holds the "no" voters.
use vstd::prelude::*;
use crate::address::proposal_address;
use crate::codec::Pubkey;
use crate::dense::{entries, find_entry, grow_slot, lemma_entries_agree, set_entry, swap_entries};
use crate::error::MultisigError;
use crate::instructions::{CreateProposalIxData, VoteIxData};
use crate::proposal::{ProposalState, ProposalStatus};
use crate::registry::{check_signer, first_index, load_group, members, group_wf, top_up, group_header, AccountRecord, MEMBERS_OFFSET};

verus! {

/// Where the voter array of a proposal record starts.
pub const VOTES_OFFSET: usize = 32;

/// What a repeated vote for the side a voter is already on does.
#[derive(Clone, Copy, Debug, PartialEq, Eq, Structural)]
pub enum RepeatVotePolicy {
    /// The vote fails with `DuplicateEntry`.
    Reject,
    /// The vote succeeds and changes nothing.
    Idempotent,
}

/// The header of a proposal record.
pub open spec fn proposal_header(d: Seq<u8>) -> ProposalState {
    ProposalState::spec_from_bytes(d)
}

/// A proposal record whose header decodes and whose length is that of the
/// header and the voter array.
pub open spec fn proposal_wf(d: Seq<u8>) -> bool {
    &&& ProposalState::spec_decodable(d)
    &&& d.len() == VOTES_OFFSET + 32 * (proposal_header(d).yes_votes + proposal_header(d).no_votes)
}

/// The voter array of a proposal record.
pub open spec fn voters(d: Seq<u8>) -> Seq<Seq<u8>> {
    entries(
        d,
        VOTES_OFFSET as int,
        proposal_header(d).yes_votes + proposal_header(d).no_votes,
    )
}

/// Two records whose header bytes agree hold the same proposal header.
pub proof fn lemma_proposal_prefix(d1: Seq<u8>, d2: Seq<u8>)
    requires
        d1.len() >= VOTES_OFFSET,
        d2.len() >= VOTES_OFFSET,
        d1.subrange(0, VOTES_OFFSET as int) == d2.subrange(0, VOTES_OFFSET as int),
    ensures
        proposal_header(d1) == proposal_header(d2),
        ProposalState::spec_decodable(d1) == ProposalState::spec_decodable(d2),
{
    let p = d1.subrange(0, VOTES_OFFSET as int);
    assert forall|a: int, b: int| 0 <= a <= b <= VOTES_OFFSET implies d1.subrange(a, b)
        == d2.subrange(a, b) by {
        assert(d1.subrange(a, b) =~= p.subrange(a, b));
        assert(d2.subrange(a, b) =~= p.subrange(a, b));
    }
    assert(d1[18] == p[18] && d1[19] == p[19] && d1[20] == p[20] && d1[21] == p[21]);
    assert(d2[18] == p[18] && d2[19] == p[19] && d2[20] == p[20] && d2[21] == p[21]);
}

/// Rewrites the header of a proposal record with `h`.
pub fn write_proposal_header(d: &mut Vec<u8>, h: &ProposalState)
    requires
        old(d)@.len() >= VOTES_OFFSET,
    ensures
        final(d)@.len() == old(d)@.len(),
        ProposalState::spec_decodable(final(d)@),
        proposal_header(final(d)@) == *h,
        forall|n: int|
            0 <= n && VOTES_OFFSET + 32 * n <= old(d)@.len() ==> entries(
                final(d)@,
                VOTES_OFFSET as int,
                n,
            ) == entries(old(d)@, VOTES_OFFSET as int, n),
{
    let bytes = h.to_bytes();
    let len = d.len();
    let mut i: usize = 0;
    while i < ProposalState::LEN
        invariant
            i <= ProposalState::LEN,
            bytes@ == h.spec_bytes(),
            bytes@.len() == ProposalState::LEN,
            len == old(d)@.len(),
            VOTES_OFFSET <= old(d)@.len(),
            d@.len() == old(d)@.len(),
            forall|p: int| 0 <= p < i ==> d@[p] == bytes@[p],
            forall|p: int| i <= p < d@.len() ==> d@[p] == old(d)@[p],
        decreases ProposalState::LEN - i,
    {
        d[i] = bytes[i];
        i += 1;
    }
    proof {
        h.lemma_round_trip();
        assert(d@.subrange(0, VOTES_OFFSET as int) =~= h.spec_bytes());
        assert(h.spec_bytes().subrange(0, VOTES_OFFSET as int) =~= h.spec_bytes());
        lemma_proposal_prefix(d@, h.spec_bytes());
        assert forall|n: int|
            0 <= n && VOTES_OFFSET + 32 * n <= old(d)@.len() implies entries(
            d@,
            VOTES_OFFSET as int,
            n,
        ) == entries(old(d)@, VOTES_OFFSET as int, n) by {
            lemma_entries_agree(d@, old(d)@, VOTES_OFFSET as int, n);
        }
    }
}

/// The voter array and the "yes" count after `k` votes `yes` (or "no") on an
/// array `v` whose first `yes` entries voted "yes".
///
/// A first vote is appended; a "yes" then trades places with the first "no"
/// voter. A changed vote trades places with the entry at the boundary on its
/// side: the first "no" voter when turning to "yes", the last "yes" voter when
/// turning to "no". A vote for the side already taken changes nothing.
pub open spec fn after_vote(v: Seq<Seq<u8>>, yes: int, k: Seq<u8>, choice: bool) -> (
    Seq<Seq<u8>>,
    int,
) {
    if v.contains(k) {
        let i = first_index(v, k);
        if choice && i >= yes {
            (v.update(i, v[yes]).update(yes, v[i]), yes + 1)
        } else if !choice && i < yes {
            (v.update(i, v[yes - 1]).update(yes - 1, v[i]), yes - 1)
        } else {
            (v, yes)
        }
    } else {
        let w = v.push(k);
        if choice {
            (w.update(v.len() as int, w[yes]).update(yes, k), yes + 1)
        } else {
            (w, yes)
        }
    }
}

/// Whether `k` votes again for the side it is already on.
pub open spec fn repeats_vote(v: Seq<Seq<u8>>, yes: int, k: Seq<u8>, choice: bool) -> bool {
    v.contains(k) && (first_index(v, k) < yes) == choice
}

/// Why a vote fails, if it does.
pub open spec fn vote_error(
    voter: AccountRecord,
    multisig: AccountRecord,
    proposal: AccountRecord,
    data: Seq<u8>,
    min_balance: u64,
    policy: RepeatVotePolicy,
) -> Option<MultisigError> {
    let d = proposal.data@;
    let h = proposal_header(d);
    let choice = data[2] == 1;
    if data.len() < VoteIxData::LEN {
        Some(MultisigError::InvalidData)
    } else if !proposal.program_owned {
        Some(MultisigError::IllegalOwner)
    } else if !group_wf(multisig.data@) {
        Some(MultisigError::InvalidData)
    } else if !members(multisig.data@).contains(voter.key@) {
        Some(MultisigError::Unauthorized)
    } else if !proposal_wf(d) {
        Some(MultisigError::InvalidData)
    } else if repeats_vote(voters(d), h.yes_votes as int, voter.key@, choice) {
        if policy == RepeatVotePolicy::Reject {
            Some(MultisigError::DuplicateEntry)
        } else {
            None
        }
    } else if (choice && h.yes_votes == 255) || (!choice && h.no_votes == 255) {
        Some(MultisigError::Overflow)
    } else if !voters(d).contains(voter.key@) && voter.lamports < top_up(
        proposal.lamports,
        min_balance,
    ) {
        Some(MultisigError::InsufficientFunds)
    } else {
        None
    }
}

/// What a successful vote leaves: voter `v_pre` and proposal `p_pre` before, `v_post`
/// and `p_post` after.
pub open spec fn voted(
    v_pre: AccountRecord,
    p_pre: AccountRecord,
    v_post: AccountRecord,
    p_post: AccountRecord,
    data: Seq<u8>,
    min_balance: u64,
) -> bool {
    let d = p_pre.data@;
    let h = proposal_header(d);
    let choice = data[2] == 1;
    let (w, yes) = after_vote(voters(d), h.yes_votes as int, v_pre.key@, choice);
    let first = !voters(d).contains(v_pre.key@);
    let t = if first {
        top_up(p_pre.lamports, min_balance)
    } else {
        0
    };
    &&& proposal_wf(p_post.data@)
    &&& voters(p_post.data@) == w
    &&& proposal_header(p_post.data@) == (ProposalState {
        yes_votes: yes as u8,
        no_votes: (w.len() - yes) as u8,
        ..h
    })
    &&& p_post.data@.len() == d.len() + (if first {
        32int
    } else {
        0
    })
    &&& p_post.lamports == p_pre.lamports + t
    &&& (first ==> p_post.lamports >= min_balance)
    &&& v_post.lamports == v_pre.lamports - t
    &&& p_post.key == p_pre.key && p_post.is_signer == p_pre.is_signer && p_post.program_owned == p_pre.program_owned
    &&& v_post.key == v_pre.key && v_post.data == v_pre.data && v_post.is_signer == v_pre.is_signer
}

/// Casts or changes the vote of `voter`, a member of the group `multisig`, on
/// `proposal`: payload byte 2 is 1 for "yes", anything else for "no". A first
/// vote grows the record by one entry, and beforehand the voter tops its
/// balance up to `min_balance`, the minimum deposit for the grown size.
/// `policy` decides what a repeated vote for the same side does.
pub fn process_vote_instruction(
    voter: &mut AccountRecord,
    multisig: &AccountRecord,
    proposal: &mut AccountRecord,
    data: &[u8],
    min_balance: u64,
    policy: RepeatVotePolicy,
) -> (r: Result<(), MultisigError>)
    ensures
        r == (match vote_error(*old(voter), *multisig, *old(proposal), data@, min_balance, policy) {
            Some(e) => Err(e),
            None => Ok(()),
        }),
        r is Err ==> *final(voter) == *old(voter) && *final(proposal) == *old(proposal),
        r is Ok ==> voted(
            *old(voter),
            *old(proposal),
            *final(voter),
            *final(proposal),
            data@,
            min_balance,
        ),
{
    let ix_data = VoteIxData::from_bytes(data)?;
    if !proposal.program_owned {
        return Err(MultisigError::IllegalOwner);
    }
    let g = load_group(&multisig.data)?;
    if find_entry(&multisig.data, MEMBERS_OFFSET, g.num_members as usize, &voter.key).is_none() {
        return Err(MultisigError::Unauthorized);
    }
    let mut h = ProposalState::from_bytes(proposal.data.as_slice())?;
    let ghost h0 = h;
    let ghost d0 = proposal.data@;
    let yes = h.yes_votes as usize;
    let no = h.no_votes as usize;
    let total = yes + no;
    if proposal.data.len() != VOTES_OFFSET + 32 * total {
        return Err(MultisigError::InvalidData);
    }
    let choice = ix_data.vote == 1;
    match find_entry(&proposal.data, VOTES_OFFSET, total, &voter.key) {
        Some(i) => {
            proof {
                let v = voters(d0);
                assert(first_index(v, voter.key@) == i as int);
            }
            if (i < yes) == choice {
                if let RepeatVotePolicy::Reject = policy {
                    return Err(MultisigError::DuplicateEntry);
                }
                return Ok(());
            }
            if (choice && h.yes_votes == 255) || (!choice && h.no_votes == 255) {
                return Err(MultisigError::Overflow);
            }
            if choice {
                swap_entries(&mut proposal.data, VOTES_OFFSET, total, i, yes);
                h.yes_votes = h.yes_votes + 1;
                h.no_votes = h.no_votes - 1;
            } else {
                swap_entries(&mut proposal.data, VOTES_OFFSET, total, i, yes - 1);
                h.yes_votes = h.yes_votes - 1;
                h.no_votes = h.no_votes + 1;
            }
            let ghost d1 = proposal.data@;
            write_proposal_header(&mut proposal.data, &h);
            proof {
                assert(voters(proposal.data@) == entries(d1, VOTES_OFFSET as int, total as int));
            }
            Ok(())
        },
        None => {
            if (choice && h.yes_votes == 255) || (!choice && h.no_votes == 255) {
                return Err(MultisigError::Overflow);
            }
            let t: u64 = if proposal.lamports < min_balance {
                min_balance - proposal.lamports
            } else {
                0
            };
            if voter.lamports < t {
                return Err(MultisigError::InsufficientFunds);
            }
            voter.lamports = voter.lamports - t;
            proposal.lamports = proposal.lamports + t;
            grow_slot(&mut proposal.data);
            proof {
                lemma_entries_agree(proposal.data@, d0, VOTES_OFFSET as int, total as int);
            }
            set_entry(&mut proposal.data, VOTES_OFFSET, total + 1, total, &voter.key);
            let ghost w = entries(proposal.data@, VOTES_OFFSET as int, total + 1);
            proof {
                assert(w =~= voters(d0).push(voter.key@));
            }
            if choice {
                swap_entries(&mut proposal.data, VOTES_OFFSET, total + 1, total, yes);
                h.yes_votes = h.yes_votes + 1;
            } else {
                h.no_votes = h.no_votes + 1;
            }
            let ghost d1 = proposal.data@;
            write_proposal_header(&mut proposal.data, &h);
            proof {
                assert(voters(proposal.data@) == entries(d1, VOTES_OFFSET as int, total + 1));
                if choice {
                    assert(entries(d1, VOTES_OFFSET as int, total + 1) =~= after_vote(
                        voters(d0),
                        h0.yes_votes as int,
                        voter.key@,
                        choice,
                    ).0);
                }
            }
            Ok(())
        },
    }
}

/// Why creating a proposal fails, if it does.
pub open spec fn create_proposal_error(
    creator: AccountRecord,
    proposal: AccountRecord,
    multisig: AccountRecord,
    data: Seq<u8>,
    proposal_bump: u8,
    min_balance: u64,
) -> Option<MultisigError> {
    let g = group_header(multisig.data@);
    if !creator.is_signer {
        Some(MultisigError::Unauthorized)
    } else if proposal.data@.len() != 0 {
        Some(MultisigError::AlreadyExists)
    } else if data.len() != CreateProposalIxData::LEN || !group_wf(multisig.data@) {
        Some(MultisigError::InvalidData)
    } else if g.admin_counter > 0 && !members(multisig.data@).take(g.admin_counter as int).contains(
        creator.key@,
    ) {
        Some(MultisigError::Unauthorized)
    } else if proposal.key@ != proposal_address(
        multisig.key,
        proposal_bump,
        CreateProposalIxData::spec_from_bytes(data).primary_seed,
    ) {
        Some(MultisigError::AddressMismatch)
    } else if proposal.lamports + min_balance > u64::MAX {
        Some(MultisigError::Overflow)
    } else if creator.lamports < min_balance {
        Some(MultisigError::InsufficientFunds)
    } else {
        None
    }
}

/// Creates the proposal record at `proposal` for the group `multisig`, paid
/// for by `creator`, who must be one of the group's admins when it has any.
/// The proposal takes its identifier and expiry from the payload, its
/// creation time from `now`, and starts as a draft with no votes.
/// `min_balance` is the minimum deposit for a header-only record.
pub fn process_create_proposal_instruction(
    creator: &mut AccountRecord,
    proposal: &mut AccountRecord,
    multisig: &AccountRecord,
    data: &[u8],
    proposal_bump: u8,
    min_balance: u64,
    now: u64,
) -> (r: Result<(), MultisigError>)
    ensures
        r == (match create_proposal_error(
            *old(creator),
            *old(proposal),
            *multisig,
            data@,
            proposal_bump,
            min_balance,
        ) {
            Some(e) => Err(e),
            None => Ok(()),
        }),
        r is Err ==> *final(creator) == *old(creator) && *final(proposal) == *old(proposal),
        r is Ok ==> {
            let ix = CreateProposalIxData::spec_from_bytes(data@);
            let h = proposal_header(final(proposal).data@);
            &&& proposal_wf(final(proposal).data@)
            &&& final(proposal).data@.len() == ProposalState::LEN
            &&& h.proposal_id == ix.primary_seed
            &&& h.expiry == ix.expiry
            &&& h.created_time == now
            &&& h.status == ProposalStatus::Draft
            &&& h.bump == proposal_bump
            &&& h.yes_votes == 0
            &&& h.no_votes == 0
            &&& voters(final(proposal).data@) == Seq::<Seq<u8>>::empty()
            &&& final(proposal).lamports == old(proposal).lamports + min_balance
            &&& final(proposal).program_owned
            &&& final(proposal).key == old(proposal).key
            &&& final(creator).lamports == old(creator).lamports - min_balance
            &&& final(creator).key == old(creator).key
        },
{
    check_signer(creator)?;
    if proposal.data.len() != 0 {
        return Err(MultisigError::AlreadyExists);
    }
    let ix_data = CreateProposalIxData::from_bytes(data)?;
    let g = load_group(&multisig.data)?;
    if g.admin_counter > 0 {
        let ac = g.admin_counter as usize;
        proof {
            assert(entries(multisig.data@, MEMBERS_OFFSET as int, ac as int) =~= members(
                multisig.data@,
            ).take(ac as int));
        }
        if find_entry(&multisig.data, MEMBERS_OFFSET, ac, &creator.key).is_none() {
            return Err(MultisigError::Unauthorized);
        }
    }
    ProposalState::validate_pda(&proposal.key, &multisig.key, proposal_bump, ix_data.primary_seed)?;
    if proposal.lamports > u64::MAX - min_balance {
        return Err(MultisigError::Overflow);
    }
    if creator.lamports < min_balance {
        return Err(MultisigError::InsufficientFunds);
    }
    creator.lamports = creator.lamports - min_balance;
    proposal.lamports = proposal.lamports + min_balance;
    proposal.program_owned = true;
    let mut state = ProposalState {
        proposal_id: 0,
        expiry: 0,
        created_time: 0,
        status: ProposalStatus::Draft,
        bump: 0,
        yes_votes: 0,
        no_votes: 0,
        _padding: [0u8; 4],
    };
    state.new(ix_data.primary_seed, ix_data.expiry, ProposalStatus::Draft, proposal_bump, now);
    let bytes = state.to_bytes();
    proof {
        state.lemma_round_trip();
        assert(voters(bytes@) =~= Seq::<Seq<u8>>::empty());
    }
    proposal.data = bytes;
    Ok(())
}

} // verus!
