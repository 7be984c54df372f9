//! What each kind of record declares about itself.
use vstd::prelude::*;
use crate::multisig::MultisigState;
use crate::proposal::ProposalState;
use crate::transaction::TransactionState;

verus! {

/// A kind of record: its width when created, and the tag that starts the
/// seeds of its address.
pub trait StateDefinition {
    const LEN: usize;
    const SEED: &'static str;
}

/// A kind of record whose address derives from a seed tag.
pub trait HasSeed {
    const SEED: &'static str;
}

impl StateDefinition for MultisigState {
    const LEN: usize = 112;
    const SEED: &'static str = "multisig";
}

impl StateDefinition for ProposalState {
    const LEN: usize = 32;
    const SEED: &'static str = "proposal";
}

impl StateDefinition for TransactionState {
    const LEN: usize = 528;
    const SEED: &'static str = "transaction";
}

} // verus!
