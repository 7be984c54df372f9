use vstd::prelude::*;
use vstd::bytes::*;
use crate::address::{transaction_address, validate_transaction_pda};
use crate::codec::{array_from, lemma_array_from, push_bytes, push_u16, push_u64, read_array, read_u16, read_u64, write_prefix};
use crate::error::MultisigError;
use vstd::array::axiom_spec_array_fill_for_copy_type;
use crate::instructions::CreateTransactionIxData;
use crate::registry::{check_signer, AccountRecord};

verus! {

broadcast use axiom_spec_array_fill_for_copy_type;

/// A transaction buffer record: an opaque payload captured for later use.
#[derive(Clone, Copy, Debug)]
pub struct TransactionState {
    pub transaction_index: u64,
    pub buffer_size: u16,
    pub tx_buffer: [u8; 512],
    pub bump: u8,
    pub _padding: [u8; 5],
}

impl TransactionState {
    /// Width of the record.
    pub const LEN: usize = 528;

    /// The record's bytes, fields in declaration order, integers little-endian.
    pub open spec fn spec_bytes(self) -> Seq<u8> {
        spec_u64_to_le_bytes(self.transaction_index) + spec_u16_to_le_bytes(self.buffer_size)
            + self.tx_buffer@ + seq![self.bump] + self._padding@
    }

    /// The record that the first `LEN` bytes of `b` hold.
    pub open spec fn spec_from_bytes(b: Seq<u8>) -> TransactionState {
        TransactionState {
            transaction_index: spec_u64_from_le_bytes(b.subrange(0, 8)),
            buffer_size: spec_u16_from_le_bytes(b.subrange(8, 10)),
            tx_buffer: array_from::<512>(b.subrange(10, 522)),
            bump: b[522],
            _padding: array_from::<5>(b.subrange(523, 528)),
        }
    }

    /// Decoding an encoded record gives the record back.
    pub proof fn lemma_round_trip(self)
        ensures
            self.spec_bytes().len() == Self::LEN,
            Self::spec_from_bytes(self.spec_bytes()) == self,
    {
        lemma_auto_spec_u64_to_from_le_bytes();
        lemma_auto_spec_u16_to_from_le_bytes();
        lemma_array_from(self.tx_buffer);
        lemma_array_from(self._padding);
        let b = self.spec_bytes();
        assert(b.subrange(0, 8) =~= spec_u64_to_le_bytes(self.transaction_index));
        assert(b.subrange(8, 10) =~= spec_u16_to_le_bytes(self.buffer_size));
        assert(b.subrange(10, 522) =~= self.tx_buffer@);
        assert(b.subrange(523, 528) =~= self._padding@);
    }

    /// Encodes the record.
    pub fn to_bytes(&self) -> (r: Vec<u8>)
        ensures
            r@ == self.spec_bytes(),
            r@.len() == Self::LEN,
    {
        proof {
            self.lemma_round_trip();
        }
        let mut out: Vec<u8> = Vec::new();
        push_u64(&mut out, self.transaction_index);
        push_u16(&mut out, self.buffer_size);
        push_bytes(&mut out, &self.tx_buffer);
        out.push(self.bump);
        push_bytes(&mut out, &self._padding);
        assert(out@ =~= self.spec_bytes());
        out
    }

    /// Decodes the record at the front of `bytes`.
    pub fn from_bytes(bytes: &[u8]) -> (r: Result<TransactionState, MultisigError>)
        ensures
            r == (if bytes@.len() < Self::LEN {
                Err(MultisigError::InvalidData)
            } else {
                Ok(Self::spec_from_bytes(bytes@))
            }),
    {
        if bytes.len() < Self::LEN {
            return Err(MultisigError::InvalidData);
        }
        let tx_buffer: [u8; 512] = read_array(bytes, 10);
        let _padding: [u8; 5] = read_array(bytes, 523);
        proof {
            lemma_array_from(tx_buffer);
            lemma_array_from(_padding);
        }
        Ok(TransactionState {
            transaction_index: read_u64(bytes, 0),
            buffer_size: read_u16(bytes, 8),
            tx_buffer,
            bump: bytes[522],
            _padding,
        })
    }

    /// Stores the payload's index, buffer and size, and `bump`, in the
    /// transaction record; the filler and any bytes past the record stay.
    pub fn initialize(
        transaction_acc: &mut AccountRecord,
        ix_data: &CreateTransactionIxData,
        bump: u8,
    ) -> (r: Result<(), MultisigError>)
        ensures
            r is Ok <==> old(transaction_acc).data@.len() >= Self::LEN,
            r is Err ==> *final(transaction_acc) == *old(transaction_acc),
            r is Ok ==> {
                let d0 = old(transaction_acc).data@;
                let d1 = final(transaction_acc).data@;
                &&& d1.len() == d0.len()
                &&& Self::spec_from_bytes(d1) == (TransactionState {
                    transaction_index: ix_data.transaction_index,
                    buffer_size: ix_data.buffer_size,
                    tx_buffer: ix_data.tx_buffer,
                    bump,
                    _padding: Self::spec_from_bytes(d0)._padding,
                })
                &&& d1.subrange(Self::LEN as int, d1.len() as int) == d0.subrange(
                    Self::LEN as int,
                    d0.len() as int,
                )
                &&& final(transaction_acc).lamports == old(transaction_acc).lamports
                &&& final(transaction_acc).key == old(transaction_acc).key
                &&& final(transaction_acc).program_owned == old(transaction_acc).program_owned
                &&& final(transaction_acc).is_signer == old(transaction_acc).is_signer
            },
    {
        let mut state = TransactionState::from_bytes(transaction_acc.data.as_slice())?;
        state.transaction_index = ix_data.transaction_index;
        state.tx_buffer = ix_data.tx_buffer;
        state.buffer_size = ix_data.buffer_size;
        state.bump = bump;
        let bytes = state.to_bytes();
        let ghost d0 = transaction_acc.data@;
        write_prefix(&mut transaction_acc.data, &bytes);
        proof {
            state.lemma_round_trip();
            let d1 = transaction_acc.data@;
            let b = state.spec_bytes();
            assert(d1.subrange(0, 8) =~= b.subrange(0, 8));
            assert(d1.subrange(8, 10) =~= b.subrange(8, 10));
            assert(d1.subrange(10, 522) =~= b.subrange(10, 522));
            assert(d1.subrange(523, 528) =~= b.subrange(523, 528));
            assert(d1[522] == b[522]);
            assert(d1.subrange(Self::LEN as int, d1.len() as int) =~= d0.subrange(
                Self::LEN as int,
                d0.len() as int,
            ));
        }
        Ok(())
    }
}

/// Why creating a transaction buffer fails, if it does.
pub open spec fn create_transaction_error(
    payer: AccountRecord,
    transaction: AccountRecord,
    data: Seq<u8>,
    transaction_bump: u8,
    min_balance: u64,
) -> Option<MultisigError> {
    if !payer.is_signer {
        Some(MultisigError::Unauthorized)
    } else if transaction.data@.len() != 0 {
        Some(MultisigError::AlreadyExists)
    } else if data.len() != CreateTransactionIxData::LEN {
        Some(MultisigError::InvalidData)
    } else if transaction.key@ != transaction_address(payer.key, transaction_bump) {
        Some(MultisigError::AddressMismatch)
    } else if transaction.lamports + min_balance > u64::MAX {
        Some(MultisigError::Overflow)
    } else if payer.lamports < min_balance {
        Some(MultisigError::InsufficientFunds)
    } else {
        None
    }
}

/// Creates the transaction buffer record at `transaction`, paid for by
/// `payer`, and stores the payload in it. `min_balance` is the minimum deposit
/// for a record of `TransactionState::LEN` bytes.
pub fn process_create_transaction(
    payer: &mut AccountRecord,
    transaction: &mut AccountRecord,
    data: &[u8],
    transaction_bump: u8,
    min_balance: u64,
) -> (r: Result<(), MultisigError>)
    ensures
        r == (match create_transaction_error(
            *old(payer),
            *old(transaction),
            data@,
            transaction_bump,
            min_balance,
        ) {
            Some(e) => Err(e),
            None => Ok(()),
        }),
        r is Err ==> *final(payer) == *old(payer) && *final(transaction) == *old(transaction),
        r is Ok ==> {
            let s = TransactionState::spec_from_bytes(final(transaction).data@);
            &&& final(transaction).data@.len() == TransactionState::LEN
            &&& s.transaction_index == spec_u64_from_le_bytes(data@.subrange(0, 8))
            &&& s.tx_buffer@ == data@.subrange(8, 520)
            &&& s.buffer_size == spec_u16_from_le_bytes(data@.subrange(520, 522))
            &&& s.bump == transaction_bump
            &&& s._padding@ == Seq::new(5, |_i: int| 0u8)
            &&& final(transaction).lamports == old(transaction).lamports + min_balance
            &&& final(transaction).program_owned
            &&& final(transaction).key == old(transaction).key
            &&& final(payer).lamports == old(payer).lamports - min_balance
            &&& final(payer).key == old(payer).key
        },
{
    check_signer(payer)?;
    if transaction.data.len() != 0 {
        return Err(MultisigError::AlreadyExists);
    }
    let ix_data = CreateTransactionIxData::from_bytes(data)?;
    validate_transaction_pda(&transaction.key, transaction_bump, &payer.key)?;
    if transaction.lamports > u64::MAX - min_balance {
        return Err(MultisigError::Overflow);
    }
    if payer.lamports < min_balance {
        return Err(MultisigError::InsufficientFunds);
    }
    payer.lamports = payer.lamports - min_balance;
    transaction.lamports = transaction.lamports + min_balance;
    transaction.program_owned = true;
    let mut z: Vec<u8> = Vec::new();
    let mut j: usize = 0;
    while j < TransactionState::LEN
        invariant
            j <= TransactionState::LEN,
            z@ == Seq::new(j as nat, |_i: int| 0u8),
        decreases TransactionState::LEN - j,
    {
        z.push(0u8);
        j += 1;
        assert(z@ =~= Seq::new(j as nat, |_i: int| 0u8));
    }
    transaction.data = z;
    let zero_padding: [u8; 5] = [0u8; 5];
    proof {
        let d = transaction.data@;
        assert(zero_padding@ =~= d.subrange(523, 528));
        lemma_array_from(zero_padding);
        assert(zero_padding@ =~= Seq::new(5, |_i: int| 0u8));
    }
    let _ = TransactionState::initialize(transaction, &ix_data, transaction_bump);
    Ok(())
}

} // verus!
