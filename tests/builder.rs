use thunder::builder::{DraftError, TransactionBuilder};
use thunder::types::{Content, OutPoint, Output};
use thunder::utxo::UtxoSet;

fn op(k: u8) -> OutPoint {
    OutPoint::Deposit { txid: [k; 32], vout: 0 }
}

fn out(value: u64) -> Output {
    Output { address: [8u8; 20], content: Content::Value(value) }
}

fn view() -> UtxoSet {
    UtxoSet::from_entries(vec![(op(1), out(600)), (op(2), out(400)), (op(3), out(5000))])
}

#[test]
fn draft_worth_less_than_outputs_is_refused() {
    let utxos = view();
    let mut draft = TransactionBuilder::new();
    draft.add_input(op(1));
    draft.add_input(op(2));
    draft.add_output(out(700));
    draft.add_output(out(500));
    assert_eq!(draft.value_in(&utxos), 1000);
    assert_eq!(draft.value_out(), 1200);
    assert_eq!(draft.fee(&utxos), None);
    assert_eq!(draft.finalize(&utxos).err(), Some(DraftError::NotEnoughValueIn));
    assert_eq!(draft.inputs.len(), 2);
    assert_eq!(draft.outputs.len(), 2);
}

#[test]
fn draft_with_enough_value_goes_to_signing() {
    let utxos = view();
    let mut draft = TransactionBuilder::new();
    assert!(draft.add_input(op(3)));
    draft.add_output(out(1200));
    assert_eq!(draft.fee(&utxos), Some(3800));
    let t = draft.finalize(&utxos).unwrap();
    assert_eq!(t.inputs, vec![op(3)]);
    assert_eq!(t.outputs, vec![out(1200)]);
    draft.clear();
    assert!(draft.inputs.is_empty());
    assert!(draft.outputs.is_empty());
}

#[test]
fn zero_fee_is_accepted() {
    let utxos = view();
    let mut draft = TransactionBuilder::new();
    draft.add_input(op(2));
    draft.add_output(out(400));
    assert_eq!(draft.fee(&utxos), Some(0));
    assert!(draft.finalize(&utxos).is_ok());
}

#[test]
fn an_input_is_selected_once() {
    let mut draft = TransactionBuilder::new();
    assert!(draft.add_input(op(1)));
    assert!(!draft.add_input(op(1)));
    assert!(draft.add_input(op(2)));
    assert_eq!(draft.inputs, vec![op(1), op(2)]);
}

#[test]
fn removing_inputs_and_outputs_by_index() {
    let utxos = view();
    let mut draft = TransactionBuilder::new();
    draft.add_input(op(1));
    draft.add_input(op(2));
    draft.add_input(op(3));
    draft.remove_input(1);
    assert_eq!(draft.inputs, vec![op(1), op(3)]);
    assert_eq!(draft.value_in(&utxos), 5600);
    draft.add_output(out(1));
    draft.add_output(out(2));
    draft.remove_output(0);
    assert_eq!(draft.outputs, vec![out(2)]);
}

#[test]
fn unknown_input_counts_for_nothing() {
    let utxos = view();
    let mut draft = TransactionBuilder::new();
    draft.add_input(op(42));
    draft.add_output(out(1));
    assert_eq!(draft.value_in(&utxos), 0);
    assert_eq!(draft.finalize(&utxos).err(), Some(DraftError::NotEnoughValueIn));
}
