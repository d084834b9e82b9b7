use thunder::mining::{
    bribe, coinbase, Action, Event, MiningCoordinator, Stage, TriggerQueue, EMPTY_BLOCK_BMM_BRIBE,
    NUM_TRANSACTIONS, TRIGGER_QUEUE_CAPACITY,
};
use thunder::types::{
    Authorization, AuthorizedTransaction, Body, Content, Header, OutPoint, Output, Transaction,
};

fn pending(k: u8) -> AuthorizedTransaction {
    AuthorizedTransaction {
        transaction: Transaction {
            inputs: vec![OutPoint::Regular { txid: [k; 32], vout: 0 }],
            outputs: vec![Output { address: [k; 20], content: Content::Value(100) }],
        },
        authorizations: vec![Authorization { public_key: [k; 32], signature: [k; 64] }],
    }
}

fn coordinator() -> MiningCoordinator {
    MiningCoordinator::new(EMPTY_BLOCK_BMM_BRIBE, NUM_TRANSACTIONS)
}

fn tips() -> Event {
    Event::Tips { merkle_root: [7u8; 32], prev_side_hash: [8u8; 32], prev_main_hash: [9u8; 32] }
}

#[test]
fn bribe_is_the_fee_or_the_minimum() {
    assert_eq!(bribe(500, 1000), 500);
    assert_eq!(bribe(0, 1000), 1000);
    assert_eq!(bribe(1, 1000), 1);
}

#[test]
fn coinbase_only_when_there_is_a_fee() {
    assert!(coinbase(0, [1u8; 20]).is_empty());
    let c = coinbase(500, [1u8; 20]);
    assert_eq!(c, vec![Output { address: [1u8; 20], content: Content::Value(500) }]);
}

#[test]
fn cycle_with_fee_pays_coinbase_and_bribes_the_fee() {
    let mut c = coordinator();
    match c.step(Event::Trigger) {
        Action::FetchBatch { max_count } => assert_eq!(max_count, 1000),
        _ => panic!("expected a batch request"),
    }
    let batch = vec![pending(1), pending(2)];
    assert!(matches!(c.step(Event::Batch { transactions: batch, fee: 500 }), Action::FetchAddress));
    let fresh = [42u8; 20];
    assert!(matches!(c.step(Event::Address(fresh)), Action::FetchTips));
    match &c.stage {
        Stage::AwaitingTips { body, fee } => {
            assert_eq!(*fee, 500);
            assert_eq!(body.coinbase, vec![Output { address: fresh, content: Content::Value(500) }]);
            assert_eq!(body.transactions, vec![pending(1).transaction, pending(2).transaction]);
            assert_eq!(body.authorizations.len(), 2);
        }
        _ => panic!("expected the body to be built"),
    }
    let (header, body) = match c.step(tips()) {
        Action::SubmitCommitment { bribe, header, body } => {
            assert_eq!(bribe, 500);
            assert_eq!(header.merkle_root, [7u8; 32]);
            assert_eq!(header.prev_side_hash, [8u8; 32]);
            assert_eq!(header.prev_main_hash, [9u8; 32]);
            assert_eq!(body.coinbase.len(), 1);
            (header, body)
        }
        _ => panic!("expected the commitment"),
    };
    assert!(matches!(c.step(Event::Committed), Action::Advance));
    assert!(matches!(c.step(Event::Advanced), Action::PollConfirmation));
    match c.step(Event::Confirmation(Some((header, body.clone())))) {
        Action::SubmitBlock { header: h, body: b } => {
            assert_eq!(h, header);
            assert_eq!(b, body);
        }
        _ => panic!("expected the block to be submitted"),
    }
    assert!(matches!(c.step(Event::Submitted), Action::RefreshWallet));
    assert!(c.is_idle());
}

#[test]
fn cycle_without_fee_uses_minimum_bribe_and_no_coinbase() {
    let mut c = coordinator();
    c.step(Event::Trigger);
    assert!(matches!(c.step(Event::Batch { transactions: vec![], fee: 0 }), Action::FetchTips));
    match c.step(tips()) {
        Action::SubmitCommitment { bribe, body, .. } => {
            assert_eq!(bribe, 1000);
            assert!(body.coinbase.is_empty());
            assert!(body.transactions.is_empty());
        }
        _ => panic!("expected the commitment"),
    }
}

#[test]
fn second_trigger_while_attempt_pending_does_nothing() {
    let mut c = coordinator();
    c.step(Event::Trigger);
    c.step(Event::Batch { transactions: vec![], fee: 0 });
    c.step(tips());
    assert!(matches!(c.stage, Stage::Committing { .. }));
    assert!(matches!(c.step(Event::Trigger), Action::Nothing));
    assert!(matches!(c.stage, Stage::Committing { bribe: 1000, .. }));
    c.step(Event::Committed);
    assert!(matches!(c.step(Event::Trigger), Action::Nothing));
    assert!(matches!(c.stage, Stage::Advancing { .. }));
}

#[test]
fn failure_returns_to_idle_and_next_cycle_runs() {
    let mut c = coordinator();
    c.step(Event::Trigger);
    c.step(Event::Batch { transactions: vec![pending(3)], fee: 10 });
    assert!(matches!(c.step(Event::Failed), Action::Nothing));
    assert!(c.is_idle());
    assert!(matches!(c.step(Event::Trigger), Action::FetchBatch { .. }));
}

#[test]
fn unconfirmed_attempt_ends_the_cycle() {
    let mut c = coordinator();
    c.step(Event::Trigger);
    c.step(Event::Batch { transactions: vec![], fee: 0 });
    c.step(tips());
    c.step(Event::Committed);
    c.step(Event::Advanced);
    assert!(matches!(c.step(Event::Confirmation(None)), Action::RefreshWallet));
    assert!(c.is_idle());
}

#[test]
fn out_of_order_event_is_ignored() {
    let mut c = coordinator();
    assert!(matches!(c.step(Event::Committed), Action::Nothing));
    assert!(c.is_idle());
    c.step(Event::Trigger);
    assert!(matches!(c.step(Event::Address([0u8; 20])), Action::Nothing));
    assert!(matches!(c.stage, Stage::AwaitingBatch));
}

#[test]
fn trigger_queue_drops_when_full() {
    let mut q = TriggerQueue::new(TRIGGER_QUEUE_CAPACITY);
    for _ in 0..32 {
        assert!(q.push());
    }
    assert!(!q.push());
    assert_eq!(q.pending, 32);
    assert!(q.pop());
    assert!(q.push());
    for _ in 0..32 {
        assert!(q.pop());
    }
    assert!(!q.pop());
}

#[test]
fn header_fields_are_kept() {
    let h = Header { merkle_root: [1u8; 32], prev_side_hash: [2u8; 32], prev_main_hash: [3u8; 32] };
    let copy = h;
    assert_eq!(copy, h);
    let b = Body::new(vec![], vec![]);
    assert!(b.authorizations.is_empty());
}
