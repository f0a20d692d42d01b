//! The JSON projection of the unsigned transaction.
//!
//! The projection is a pure view: inputs and outputs are carried verbatim
//! and in order, and absent data inputs collapse to an empty list on the
//! way out and back to absent on the way in. Decoding validates the bounds
//! and recomputes the derived id; [`lemma_json_roundtrip`] shows that
//! decoding the projection of a valid transaction gives the transaction
//! back. Turning the projection into JSON text happens outside the
//! library, which only defines the mapping.

use vstd::prelude::*;

use crate::transaction::{
    di_views, output_views, tx_valid, ui_views, BoxCandidateV, DataInput, ErgoBoxCandidate,
    TransactionError, UnsignedInput, UnsignedInputV, UnsignedTransaction, UnsignedTransactionV,
    MAX_TX_IO_COUNT, ser_tx_signing,
};
use crate::hash::blake2b256_of;

verus! {

/// The JSON surface of an unsigned transaction.
#[derive(Debug, PartialEq, Eq)]
pub struct UnsignedTransactionJson {
    /// Unsigned inputs, in order.
    pub inputs: Vec<UnsignedInput>,
    /// Data inputs, in order; empty stands for absent.
    pub data_inputs: Vec<DataInput>,
    /// Output candidates, in order.
    pub outputs: Vec<ErgoBoxCandidate>,
}

/// Mathematical model of [`UnsignedTransactionJson`].
#[verifier::ext_equal]
pub struct UnsignedTransactionJsonV {
    /// Unsigned inputs.
    pub inputs: Seq<UnsignedInputV>,
    /// Data inputs; empty stands for absent.
    pub data_inputs: Seq<Seq<u8>>,
    /// Output candidates.
    pub outputs: Seq<BoxCandidateV>,
}

impl View for UnsignedTransactionJson {
    type V = UnsignedTransactionJsonV;

    open spec fn view(&self) -> UnsignedTransactionJsonV {
        UnsignedTransactionJsonV {
            inputs: ui_views(self.inputs@),
            data_inputs: di_views(self.data_inputs@),
            outputs: output_views(self.outputs@),
        }
    }
}

/// The projection of a transaction: inputs and outputs verbatim, absent
/// data inputs as an empty list.
pub open spec fn json_of(t: UnsignedTransactionV) -> UnsignedTransactionJsonV {
    UnsignedTransactionJsonV {
        inputs: t.inputs,
        data_inputs: match t.data_inputs {
            Option::None => Seq::empty(),
            Option::Some(d) => d,
        },
        outputs: t.outputs,
    }
}

/// What decoding a projection yields: the bounds validated with one error
/// per violated bound, empty data inputs collapsed back to absent, and the
/// id recomputed from a fresh serialization.
pub open spec fn decode_json_view(j: UnsignedTransactionJsonV) -> Result<
    UnsignedTransactionV,
    TransactionError,
> {
    let di = if j.data_inputs.len() == 0 {
        Option::<Seq<Seq<u8>>>::None
    } else {
        Option::Some(j.data_inputs)
    };
    if !(1 <= j.inputs.len() <= MAX_TX_IO_COUNT) {
        Err(TransactionError::InvalidInputsCount)
    } else if j.data_inputs.len() > MAX_TX_IO_COUNT {
        Err(TransactionError::InvalidDataInputsCount)
    } else if !(1 <= j.outputs.len() <= MAX_TX_IO_COUNT) {
        Err(TransactionError::InvalidOutputCandidatesCount)
    } else {
        Ok(
            UnsignedTransactionV {
                tx_id: blake2b256_of(ser_tx_signing(j.inputs, di, j.outputs)),
                inputs: j.inputs,
                data_inputs: di,
                outputs: j.outputs,
            },
        )
    }
}

impl UnsignedTransactionJson {
    /// Projects a transaction to its JSON surface: no reordering, absent
    /// data inputs become an empty list.
    pub fn from_tx(tx: UnsignedTransaction) -> (r: UnsignedTransactionJson)
        ensures
            r@ == json_of(tx@),
    {
        let data_inputs: Vec<DataInput> = match tx.data_inputs {
            Option::None => Vec::new(),
            Option::Some(d) => d,
        };
        let r = UnsignedTransactionJson {
            inputs: tx.inputs,
            data_inputs,
            outputs: tx.output_candidates,
        };
        proof {
            assert(r@ =~= json_of(tx@));
        }
        r
    }

    /// Decodes the JSON surface back into a transaction, validating the
    /// bounds and recomputing the id.
    pub fn try_into_tx(self) -> (r: Result<UnsignedTransaction, TransactionError>)
        ensures
            match decode_json_view(self@) {
                Ok(tv) => (r matches Ok(tx) && tx@ == tv),
                Err(e) => r == Err::<UnsignedTransaction, TransactionError>(e),
            },
    {
        let ghost jv = self@;
        let r = UnsignedTransaction::new_from_vec(self.inputs, self.data_inputs, self.outputs);
        proof {
            match decode_json_view(jv) {
                Ok(tv) => {
                    assert(r matches Ok(tx) && tx@ =~= tv);
                },
                Err(e) => {},
            }
        }
        r
    }
}

/// Transaction round-trip: decoding the JSON projection of any valid
/// transaction gives the transaction back, id included.
pub proof fn lemma_json_roundtrip(t: UnsignedTransactionV)
    requires
        tx_valid(t),
    ensures
        decode_json_view(json_of(t)) == Ok::<UnsignedTransactionV, TransactionError>(t),
{
    match t.data_inputs {
        Option::None => {
            assert(decode_json_view(json_of(t)).unwrap() =~= t);
        },
        Option::Some(d) => {
            assert(decode_json_view(json_of(t)).unwrap() =~= t);
        },
    }
}

} // verus!
