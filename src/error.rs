use vstd::prelude::*;

verus! {

/// The ways in which an operation on the registry can fail.
#[derive(Clone, Copy, Debug, PartialEq, Eq, Structural)]
pub enum MultisigError {
    /// A required signature is missing, or the signer may not act here.
    Unauthorized,
    /// The target record is already populated.
    AlreadyExists,
    /// The identity looked for is absent.
    NotFound,
    /// A payload or a record is malformed or too small.
    InvalidData,
    /// The identity already occupies the target array.
    DuplicateEntry,
    /// A counter would leave its range.
    Overflow,
    /// A derived address differs from the supplied one.
    AddressMismatch,
    /// Fewer input records than the operation needs.
    InsufficientInputs,
    /// The payer cannot cover a deposit.
    InsufficientFunds,
    /// A record is not owned by this program.
    IllegalOwner,
}

} // verus!
