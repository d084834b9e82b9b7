use thunder::panels::{MemPoolExplorer, UtxoCreator, UtxoType};
use thunder::types::{Content, OutPoint, Output, Transaction};
use thunder::utxo::UtxoSet;

fn op(k: u8) -> OutPoint {
    OutPoint::Coinbase { merkle_root: [k; 32], vout: 1 }
}

fn out(value: u64) -> Output {
    Output { address: [6u8; 20], content: Content::Value(value) }
}

#[test]
fn mempool_fee_from_known_inputs() {
    let utxos = UtxoSet::from_entries(vec![(op(1), out(900)), (op(2), out(300))]);
    let t = Transaction { inputs: vec![op(1), op(2)], outputs: vec![out(1000)] };
    assert_eq!(MemPoolExplorer::value_in(&t, &utxos), 1200);
    assert_eq!(MemPoolExplorer::fee(&t, &utxos), Some(200));
}

#[test]
fn mempool_transaction_with_unknown_input_takes_in_nothing() {
    let utxos = UtxoSet::from_entries(vec![(op(1), out(900))]);
    let t = Transaction { inputs: vec![op(1), op(5)], outputs: vec![out(10)] };
    assert_eq!(MemPoolExplorer::value_in(&t, &utxos), 0);
    assert_eq!(MemPoolExplorer::fee(&t, &utxos), None);
    let free = Transaction { inputs: vec![op(5)], outputs: vec![] };
    assert_eq!(MemPoolExplorer::fee(&free, &utxos), Some(0));
}

#[test]
fn mempool_selection() {
    let mut explorer = MemPoolExplorer::default();
    assert_eq!(explorer.current, 0);
    let txs = vec![Transaction::new(), Transaction { inputs: vec![op(1)], outputs: vec![] }];
    assert_eq!(explorer.selected(&txs), Some(&txs[0]));
    explorer.select(1);
    assert_eq!(explorer.selected(&txs), Some(&txs[1]));
    explorer.select(2);
    assert_eq!(explorer.selected(&txs), None);
}

#[test]
fn utxo_creator_defaults_and_withdrawal_fields() {
    let mut form = UtxoCreator::default();
    assert_eq!(form.utxo_type, UtxoType::Regular);
    assert!(form.value.is_empty() && form.address.is_empty());
    assert!(!form.needs_mainchain_fields());
    form.utxo_type = UtxoType::Withdrawal;
    assert!(form.needs_mainchain_fields());
    assert_eq!(UtxoType::Regular.to_string(), "regular");
    assert_eq!(UtxoType::Withdrawal.to_string(), "withdrawal");
}
