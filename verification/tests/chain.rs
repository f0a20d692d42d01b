//! Transaction behaviour: construction bounds, id derivation, signing
//! bytes, the JSON projection and distinct token ids.

use blake2::digest::consts::U32;
use blake2::digest::Digest;
use blake2::Blake2b;

use ergotree::eval::ContextExtension;
use ergotree::transaction::{
    BoxId, DataInput, ErgoBoxCandidate, Token, TokenId, TransactionError, UnsignedInput,
    UnsignedTransaction,
};
use ergotree::tx_json::UnsignedTransactionJson;

fn zero_box_input() -> UnsignedInput {
    UnsignedInput {
        box_id: BoxId([0u8; 32]),
        extension: ContextExtension { values: vec![] },
    }
}

fn simple_output(value: u64) -> ErgoBoxCandidate {
    ErgoBoxCandidate {
        value,
        ergo_tree: vec![],
        creation_height: 0,
        tokens: vec![],
        registers: vec![],
    }
}

fn build_simple_tx() -> UnsignedTransaction {
    UnsignedTransaction::new_from_vec(
        vec![zero_box_input()],
        vec![],
        vec![simple_output(1_000_000)],
    )
    .unwrap()
}

#[test]
fn simple_tx_id_is_deterministic() {
    // one input with the all-zero box id, no data inputs, one output of
    // value 1_000_000 with empty tree bytes, height 0, no tokens or
    // registers
    let tx1 = build_simple_tx();
    let tx2 = build_simple_tx();
    assert_eq!(tx1.id(), tx2.id());
    assert!(!tx1.bytes_to_sign().is_empty());
    assert_eq!(tx1.bytes_to_sign(), tx2.bytes_to_sign());
}

#[test]
fn tx_id_is_blake2b_of_signing_bytes() {
    let tx = build_simple_tx();
    let mut hasher = Blake2b::<U32>::new();
    hasher.update(tx.bytes_to_sign().as_slice());
    let expected: [u8; 32] = hasher.finalize().into();
    assert_eq!(tx.id().0, expected);
    assert_eq!(tx.calc_tx_id(), tx.id());
}

#[test]
fn empty_inputs_are_rejected() {
    let r = UnsignedTransaction::new_from_vec(vec![], vec![], vec![simple_output(1)]);
    assert_eq!(r.unwrap_err(), TransactionError::InvalidInputsCount);
}

#[test]
fn empty_outputs_are_rejected() {
    let r = UnsignedTransaction::new_from_vec(vec![zero_box_input()], vec![], vec![]);
    assert_eq!(r.unwrap_err(), TransactionError::InvalidOutputCandidatesCount);
}

#[test]
fn empty_data_inputs_collapse_to_absent() {
    let tx = build_simple_tx();
    assert!(tx.data_inputs.is_none());
    let with_di = UnsignedTransaction::new_from_vec(
        vec![zero_box_input()],
        vec![DataInput { box_id: BoxId([9u8; 32]) }],
        vec![simple_output(1)],
    )
    .unwrap();
    assert_eq!(with_di.data_inputs.as_ref().map(|d| d.len()), Some(1));
}

#[test]
fn data_inputs_change_the_id() {
    let without = build_simple_tx();
    let with_di = UnsignedTransaction::new_from_vec(
        vec![zero_box_input()],
        vec![DataInput { box_id: BoxId([9u8; 32]) }],
        vec![simple_output(1_000_000)],
    )
    .unwrap();
    assert_ne!(without.id(), with_di.id());
}

#[test]
fn proof_erased_twin_serializes_alike() {
    let tx = build_simple_tx();
    let twin = tx.to_tx_wo_proofs();
    assert_eq!(twin.bytes_to_sign(), tx.bytes_to_sign());
    assert_eq!(twin.tx_id, tx.id());
}

#[test]
fn json_projection_roundtrip() {
    let tx = UnsignedTransaction::new_from_vec(
        vec![zero_box_input()],
        vec![DataInput { box_id: BoxId([5u8; 32]) }],
        vec![simple_output(42), simple_output(58)],
    )
    .unwrap();
    let expected_id = tx.id();
    let json = UnsignedTransactionJson::from_tx(tx);
    assert_eq!(json.inputs.len(), 1);
    assert_eq!(json.data_inputs.len(), 1);
    assert_eq!(json.outputs.len(), 2);
    let back = json.try_into_tx().unwrap();
    assert_eq!(back.id(), expected_id);
    assert_eq!(back.inputs.len(), 1);
    assert_eq!(back.output_candidates.len(), 2);
}

#[test]
fn json_projection_collapses_empty_data_inputs() {
    let tx = build_simple_tx();
    let id = tx.id();
    let json = UnsignedTransactionJson::from_tx(tx);
    assert!(json.data_inputs.is_empty());
    let back = json.try_into_tx().unwrap();
    assert!(back.data_inputs.is_none());
    assert_eq!(back.id(), id);
}

#[test]
fn json_decode_validates_bounds() {
    let bad = UnsignedTransactionJson { inputs: vec![], data_inputs: vec![], outputs: vec![] };
    assert_eq!(bad.try_into_tx().unwrap_err(), TransactionError::InvalidInputsCount);
}

#[test]
fn distinct_token_ids_first_appearance_order() {
    let t = |b: u8| Token { token_id: TokenId([b; 32]), amount: 1 };
    let out1 = ErgoBoxCandidate {
        value: 1,
        ergo_tree: vec![],
        creation_height: 0,
        tokens: vec![t(2), t(1)],
        registers: vec![],
    };
    let out2 = ErgoBoxCandidate {
        value: 1,
        ergo_tree: vec![],
        creation_height: 0,
        tokens: vec![t(1), t(3), t(2)],
        registers: vec![],
    };
    let tx = UnsignedTransaction::new_from_vec(vec![zero_box_input()], vec![], vec![out1, out2])
        .unwrap();
    let ids = tx.distinct_token_ids();
    assert_eq!(ids, vec![TokenId([2u8; 32]), TokenId([1u8; 32]), TokenId([3u8; 32])]);
}

#[test]
fn signing_bytes_layout_starts_with_input_count() {
    let tx = build_simple_tx();
    let bytes = tx.bytes_to_sign();
    // one input, the 32 zero box id bytes, an empty extension, no data
    // inputs, one output
    assert_eq!(bytes[0], 1);
    assert_eq!(&bytes[1..33], &[0u8; 32]);
    assert_eq!(bytes[33], 0); // extension entry count
    assert_eq!(bytes[34], 0); // data inputs absent
    assert_eq!(bytes[35], 1); // output count
}
