use thunder::types::{
    same_bytes, total_value, Authorization, AuthorizedTransaction, Body, Content, OutPoint, Output,
    Thunder, Transaction,
};

fn out(value: u64) -> Output {
    Output { address: [9u8; 20], content: Content::Value(value) }
}

#[test]
fn outpoints_compare_by_kind_and_fields() {
    let a = OutPoint::Regular { txid: [1u8; 32], vout: 0 };
    assert_eq!(a, OutPoint::Regular { txid: [1u8; 32], vout: 0 });
    assert_ne!(a, OutPoint::Regular { txid: [1u8; 32], vout: 1 });
    assert_ne!(a, OutPoint::Deposit { txid: [1u8; 32], vout: 0 });
    assert_ne!(a, OutPoint::Coinbase { merkle_root: [1u8; 32], vout: 0 });
    let mut other = [1u8; 32];
    other[31] = 2;
    assert_ne!(a, OutPoint::Regular { txid: other, vout: 0 });
}

#[test]
fn same_bytes_finds_a_difference_anywhere() {
    let a = [5u8; 32];
    let mut b = [5u8; 32];
    assert!(same_bytes(&a, &b));
    b[17] = 6;
    assert!(!same_bytes(&a, &b));
}

#[test]
fn custom_content_carries_no_value() {
    assert_eq!(Thunder.get_value(), 0);
    assert_eq!(Content::Custom(Thunder).get_value(), 0);
    assert_eq!(Content::Value(42).get_value(), 42);
    assert_eq!(Output { address: [0u8; 20], content: Content::Custom(Thunder) }.get_value(), 0);
}

#[test]
fn total_value_adds_outputs_without_overflow() {
    assert_eq!(total_value(&vec![]), 0);
    assert_eq!(total_value(&vec![out(700), out(500)]), 1200);
    assert_eq!(total_value(&vec![out(u64::MAX), out(u64::MAX)]), 2 * (u64::MAX as u128));
}

#[test]
fn body_new_splits_transactions_and_authorizations() {
    let auth = |k: u8| Authorization { public_key: [k; 32], signature: [k; 64] };
    let t1 = Transaction { inputs: vec![OutPoint::Regular { txid: [1u8; 32], vout: 0 }], outputs: vec![out(1)] };
    let t2 = Transaction {
        inputs: vec![
            OutPoint::Regular { txid: [2u8; 32], vout: 0 },
            OutPoint::Deposit { txid: [3u8; 32], vout: 1 },
        ],
        outputs: vec![],
    };
    let batch = vec![
        AuthorizedTransaction { transaction: t1.clone(), authorizations: vec![auth(1)] },
        AuthorizedTransaction { transaction: t2.clone(), authorizations: vec![auth(2), auth(3)] },
    ];
    let body = Body::new(batch, vec![out(5)]);
    assert_eq!(body.transactions, vec![t1, t2]);
    assert_eq!(body.authorizations, vec![auth(1), auth(2), auth(3)]);
    assert_eq!(body.coinbase, vec![out(5)]);
}
