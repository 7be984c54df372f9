//! A multi-party authorization registry: groups of members, some of them
//! admins, that govern actions through proposals and votes. Groups and
//! proposals live in byte-packed records: a fixed header followed by a densely
//! packed array of 32-byte identities, which every operation resizes,
//! reorders and partitions in place while paying for growth out of a balance.

mod address;
mod codec;
mod dense;
mod error;
mod instructions;
pub mod laws;
mod ledger;
mod member;
mod multisig;
mod proposal;
mod registry;
mod state;
mod transaction;

pub use address::{
    multisig_address, proposal_address, transaction_address, treasury_address,
    validate_multisig_pda, validate_transaction_pda, validate_treasury_pda, ID, MULTISIG_SEED,
    PROPOSAL_SEED, TRANSACTION_SEED, TREASURY_SEED,
};
pub use codec::{keys_equal, read_key, read_u16, read_u64, Pubkey, KEY_LEN};
pub use dense::{find_entry, insert_entry, read_entry, remove_entry, swap_entries};
pub use error::MultisigError;
pub use instructions::{
    CreateProposalIxData, CreateTransactionIxData, InitMultisigIxData, MultisigInstructions,
    UpdateMemberIxData, UpdateMultisigIxData, VoteIxData,
};
pub use ledger::{
    process_create_proposal_instruction, process_vote_instruction, RepeatVotePolicy, VOTES_OFFSET,
};
pub use member::{MemberRole, MemberState};
pub use multisig::MultisigState;
pub use proposal::{ProposalState, ProposalStatus};
pub use registry::{
    add_member, check_signer, close_account, process_init_multisig_instruction,
    process_update_member, process_update_multisig, remove_member, AccountRecord,
    MEMBERS_OFFSET,
};
pub use state::{HasSeed, StateDefinition};
pub use transaction::{process_create_transaction, TransactionState};
