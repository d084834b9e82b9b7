use vstd::prelude::*;

use crate::types::{
    all_authorizations, Address, AuthorizedTransaction, Body, Content, Digest, Header, Output,
};

verus! {

/// Most pending transactions taken into one block.
pub const NUM_TRANSACTIONS: usize = 1000;

/// The bribe offered for a block that collects no fee.
pub const EMPTY_BLOCK_BMM_BRIBE: u64 = 1000;

/// The bribe for a block that collects `fee`: the fee itself, or `min_bribe` when there is none.
pub open spec fn spec_bribe(fee: u64, min_bribe: u64) -> u64 {
    if fee > 0 {
        fee
    } else {
        min_bribe
    }
}

pub fn bribe(fee: u64, min_bribe: u64) -> (r: u64)
    ensures
        r == spec_bribe(fee, min_bribe),
{
    if fee > 0 {
        fee
    } else {
        min_bribe
    }
}

/// The coinbase of a block that collects `fee`: nothing when the fee is zero, else one output
/// paying the fee to `address`.
pub open spec fn coinbase_for(fee: u64, address: Address) -> Seq<Output> {
    if fee == 0 {
        Seq::empty()
    } else {
        seq![Output { address, content: Content::Value(fee) }]
    }
}

/// A coinbase pays exactly the block's fee, and has an output exactly when that fee is positive.
pub open spec fn coinbase_pays(coinbase: Seq<Output>, fee: u64) -> bool {
    &&& (coinbase.len() > 0 <==> fee > 0)
    &&& fee > 0 ==> coinbase.len() == 1 && coinbase[0].value() == fee
}

/// `body` holds the transactions of `batch`, in order, their authorizations and `coinbase`.
pub open spec fn built_from(body: Body, batch: Seq<AuthorizedTransaction>, coinbase: Seq<Output>) -> bool {
    &&& body.coinbase@ == coinbase
    &&& body.transactions@.len() == batch.len()
    &&& forall|i: int| 0 <= i < batch.len() ==> #[trigger] body.transactions@[i] == batch[i].transaction
    &&& body.authorizations@ == all_authorizations(batch)
}

/// A coinbase output is there exactly when the fee is positive, and it pays the fee.
pub proof fn lemma_coinbase_pays_fee(fee: u64, address: Address)
    ensures
        coinbase_pays(coinbase_for(fee, address), fee),
{
}

/// The coinbase for `fee`, paying to `address`.
pub fn coinbase(fee: u64, address: Address) -> (r: Vec<Output>)
    ensures
        r@ == coinbase_for(fee, address),
{
    if fee == 0 {
        Vec::new()
    } else {
        let r = vec![Output { address, content: Content::Value(fee) }];
        assert(r@ =~= coinbase_for(fee, address));
        r
    }
}

/// Where a mining cycle stands.
pub enum Stage {
    /// No cycle is running.
    Idle,
    /// The ledger was asked for a batch of pending transactions and their total fee.
    AwaitingBatch,
    /// The batch collects a fee; the wallet was asked for a fresh address to pay it to.
    AwaitingAddress { transactions: Vec<AuthorizedTransaction>, fee: u64 },
    /// The body is built; its merkle root and the side-chain and main-chain tips were asked for.
    AwaitingTips { body: Body, fee: u64 },
    /// The commitment was handed to the mainchain.
    Committing { bribe: u64, header: Header },
    /// The mainchain was asked to advance.
    Advancing { bribe: u64, header: Header },
    /// The mainchain is polled for the commitment's confirmation.
    Confirming { bribe: u64, header: Header },
    /// The confirmed block was handed to the ledger.
    Submitting { header: Header },
}

/// What the outside world reports to the coordinator.
pub enum Event {
    /// A request to mine a block.
    Trigger,
    /// The ledger's pending transactions, at most the batch cap of them, and their total fee.
    Batch { transactions: Vec<AuthorizedTransaction>, fee: u64 },
    /// A fresh wallet address.
    Address(Address),
    /// The merkle root of the body being built, and the tips to build on.
    Tips { merkle_root: Digest, prev_side_hash: Digest, prev_main_hash: Digest },
    /// The mainchain took the commitment.
    Committed,
    /// The mainchain advanced.
    Advanced,
    /// The mainchain's answer to the poll: the confirmed block, if any.
    Confirmation(Option<(Header, Body)>),
    /// The ledger took the block.
    Submitted,
    /// The outside step asked for last failed.
    Failed,
}

/// What the coordinator asks the outside world to do next.
pub enum Action {
    /// Nothing to do.
    Nothing,
    /// Ask the ledger for at most `max_count` pending transactions and their total fee.
    FetchBatch { max_count: usize },
    /// Ask the wallet for a fresh address.
    FetchAddress,
    /// Compute the merkle root of the body in `Stage::AwaitingTips` and read both tips.
    FetchTips,
    /// Commit the block to the mainchain with this bribe.
    SubmitCommitment { bribe: u64, header: Header, body: Body },
    /// Ask the mainchain to advance.
    Advance,
    /// Poll the mainchain for the confirmation.
    PollConfirmation,
    /// Hand the confirmed block to the ledger.
    SubmitBlock { header: Header, body: Body },
    /// The cycle is over: bring the wallet's view up to date.
    RefreshWallet,
}

/// Drives one blind-merged-mining cycle at a time: batch, body, header, commitment,
/// confirmation, submission.
pub struct MiningCoordinator {
    pub stage: Stage,
    /// The bribe offered when a block collects no fee.
    pub min_bribe: u64,
    /// Most pending transactions taken into one block.
    pub batch_cap: usize,
}

/// What follows `c` on `event`: the coordinator `next` and the action `action`.
pub open spec fn transition(c: MiningCoordinator, event: Event, next: MiningCoordinator, action: Action) -> bool {
    &&& next.min_bribe == c.min_bribe
    &&& next.batch_cap == c.batch_cap
    &&& match (c.stage, event) {
        (Stage::Idle, Event::Trigger) => next.stage is AwaitingBatch && action == (Action::FetchBatch {
            max_count: c.batch_cap,
        }),
        (Stage::AwaitingBatch, Event::Batch { transactions, fee }) => if fee == 0 {
            &&& next.stage matches Stage::AwaitingTips { body, fee: f } && f == 0 && built_from(
                body,
                transactions@,
                Seq::empty(),
            )
            &&& action is FetchTips
        } else {
            &&& next.stage == (Stage::AwaitingAddress { transactions, fee })
            &&& action is FetchAddress
        },
        (Stage::AwaitingAddress { transactions, fee }, Event::Address(address)) => {
            &&& next.stage matches Stage::AwaitingTips { body, fee: f } && f == fee && built_from(
                body,
                transactions@,
                coinbase_for(fee, address),
            )
            &&& action is FetchTips
        },
        (
            Stage::AwaitingTips { body, fee },
            Event::Tips { merkle_root, prev_side_hash, prev_main_hash },
        ) => {
            let header = Header { merkle_root, prev_side_hash, prev_main_hash };
            let bribe = spec_bribe(fee, c.min_bribe);
            &&& next.stage == (Stage::Committing { bribe, header })
            &&& action == (Action::SubmitCommitment { bribe, header, body })
        },
        (Stage::Committing { bribe, header }, Event::Committed) => {
            &&& next.stage == (Stage::Advancing { bribe, header })
            &&& action is Advance
        },
        (Stage::Advancing { bribe, header }, Event::Advanced) => {
            &&& next.stage == (Stage::Confirming { bribe, header })
            &&& action is PollConfirmation
        },
        (Stage::Confirming { .. }, Event::Confirmation(Some((header, body)))) => {
            &&& next.stage == (Stage::Submitting { header })
            &&& action == (Action::SubmitBlock { header, body })
        },
        (Stage::Confirming { .. }, Event::Confirmation(None)) => {
            &&& next.stage is Idle
            &&& action is RefreshWallet
        },
        (Stage::Submitting { .. }, Event::Submitted) => {
            &&& next.stage is Idle
            &&& action is RefreshWallet
        },
        (_, Event::Failed) => next.stage is Idle && action is Nothing,
        _ => next.stage == c.stage && action is Nothing,
    }
}

impl MiningCoordinator {
    /// An idle coordinator that takes at most `batch_cap` transactions into a block and offers
    /// `min_bribe` for a block without fees.
    pub fn new(min_bribe: u64, batch_cap: usize) -> (r: MiningCoordinator)
        ensures
            r.stage is Idle,
            r.min_bribe == min_bribe,
            r.batch_cap == batch_cap,
            r.wf(),
    {
        MiningCoordinator { stage: Stage::Idle, min_bribe, batch_cap }
    }

    /// The coinbase of a body being built pays exactly the fee it collects.
    pub open spec fn wf(&self) -> bool {
        match self.stage {
            Stage::AwaitingAddress { fee, .. } => fee > 0,
            Stage::AwaitingTips { body, fee } => coinbase_pays(body.coinbase@, fee),
            _ => true,
        }
    }

    /// Whether a commitment is out and not yet resolved.
    pub open spec fn attempt_pending(&self) -> bool {
        ||| self.stage is Committing
        ||| self.stage is Advancing
        ||| self.stage is Confirming
    }

    /// Whether no cycle is running.
    pub fn is_idle(&self) -> (r: bool)
        ensures
            r == self.stage is Idle,
    {
        match self.stage {
            Stage::Idle => true,
            _ => false,
        }
    }

    /// Takes in `event` and says what to do next.
    pub fn step(&mut self, event: Event) -> (action: Action)
        requires
            old(self).wf(),
        ensures
            final(self).wf(),
            transition(*old(self), event, *final(self), action),
    {
        let mut stage = Stage::Idle;
        std::mem::swap(&mut self.stage, &mut stage);
        match (stage, event) {
            (Stage::Idle, Event::Trigger) => {
                self.stage = Stage::AwaitingBatch;
                Action::FetchBatch { max_count: self.batch_cap }
            },
            (Stage::AwaitingBatch, Event::Batch { transactions, fee }) => {
                if fee == 0 {
                    let body = Body::new(transactions, Vec::new());
                    proof {
                        assert(body.coinbase@ =~= Seq::<Output>::empty());
                    }
                    self.stage = Stage::AwaitingTips { body, fee };
                    Action::FetchTips
                } else {
                    self.stage = Stage::AwaitingAddress { transactions, fee };
                    Action::FetchAddress
                }
            },
            (Stage::AwaitingAddress { transactions, fee }, Event::Address(address)) => {
                let body = Body::new(transactions, coinbase(fee, address));
                self.stage = Stage::AwaitingTips { body, fee };
                Action::FetchTips
            },
            (
                Stage::AwaitingTips { body, fee },
                Event::Tips { merkle_root, prev_side_hash, prev_main_hash },
            ) => {
                let header = Header { merkle_root, prev_side_hash, prev_main_hash };
                let bribe = bribe(fee, self.min_bribe);
                self.stage = Stage::Committing { bribe, header };
                Action::SubmitCommitment { bribe, header, body }
            },
            (Stage::Committing { bribe, header }, Event::Committed) => {
                self.stage = Stage::Advancing { bribe, header };
                Action::Advance
            },
            (Stage::Advancing { bribe, header }, Event::Advanced) => {
                self.stage = Stage::Confirming { bribe, header };
                Action::PollConfirmation
            },
            (Stage::Confirming { .. }, Event::Confirmation(Some((header, body)))) => {
                self.stage = Stage::Submitting { header };
                Action::SubmitBlock { header, body }
            },
            (Stage::Confirming { .. }, Event::Confirmation(None)) => {
                self.stage = Stage::Idle;
                Action::RefreshWallet
            },
            (Stage::Submitting { .. }, Event::Submitted) => {
                self.stage = Stage::Idle;
                Action::RefreshWallet
            },
            (_, Event::Failed) => {
                self.stage = Stage::Idle;
                Action::Nothing
            },
            (other, _) => {
                self.stage = other;
                Action::Nothing
            },
        }
    }
}

/// Room for this many requests to mine that wait for the coordinator.
pub const TRIGGER_QUEUE_CAPACITY: usize = 32;

/// Requests to mine that wait for the coordinator, at most `capacity` of them. A request that
/// finds the queue full is dropped: the next cycle takes in the pending work all the same.
pub struct TriggerQueue {
    pub pending: usize,
    pub capacity: usize,
}

impl TriggerQueue {
    pub open spec fn wf(&self) -> bool {
        self.pending <= self.capacity
    }

    /// An empty queue with room for `capacity` requests.
    pub fn new(capacity: usize) -> (r: TriggerQueue)
        ensures
            r.wf(),
            r.pending == 0,
            r.capacity == capacity,
    {
        TriggerQueue { pending: 0, capacity }
    }

    /// Adds a request; says whether there was room for it.
    pub fn push(&mut self) -> (accepted: bool)
        requires
            old(self).wf(),
        ensures
            final(self).wf(),
            final(self).capacity == old(self).capacity,
            accepted == (old(self).pending < old(self).capacity),
            final(self).pending == (if accepted {
                old(self).pending + 1
            } else {
                old(self).pending as int
            }),
    {
        if self.pending < self.capacity {
            self.pending = self.pending + 1;
            true
        } else {
            false
        }
    }

    /// Takes the oldest request; says whether there was one.
    pub fn pop(&mut self) -> (took: bool)
        requires
            old(self).wf(),
        ensures
            final(self).wf(),
            final(self).capacity == old(self).capacity,
            took == (old(self).pending > 0),
            final(self).pending == (if took {
                old(self).pending - 1
            } else {
                0
            }),
    {
        if self.pending > 0 {
            self.pending = self.pending - 1;
            true
        } else {
            false
        }
    }
}

/// While a cycle is running, and in particular while a commitment is outstanding, a trigger
/// changes nothing and asks for nothing: a second cycle cannot start.
pub proof fn lemma_no_second_attempt(
    c: MiningCoordinator,
    next: MiningCoordinator,
    action: Action,
)
    requires
        !(c.stage is Idle),
        transition(c, Event::Trigger, next, action),
    ensures
        next == c,
        action is Nothing,
{
}

/// Every step keeps the body under construction paying exactly its fee: a coinbase output is
/// there exactly when the fee is positive, and it pays the whole fee.
pub proof fn lemma_body_pays_fee(c: MiningCoordinator, event: Event, next: MiningCoordinator, action: Action)
    requires
        c.wf(),
        transition(c, event, next, action),
    ensures
        next.wf(),
        next.stage matches Stage::AwaitingTips { body, fee } ==> coinbase_pays(body.coinbase@, fee),
{
}

/// Every cycle that reaches the commitment offers the fee when it collects one, and the fixed
/// minimum bribe otherwise; the body it commits has a coinbase exactly when the fee is positive,
/// paying the whole fee.
pub proof fn lemma_bribe_follows_fee(
    c: MiningCoordinator,
    merkle_root: Digest,
    prev_side_hash: Digest,
    prev_main_hash: Digest,
    next: MiningCoordinator,
    action: Action,
)
    requires
        c.wf(),
        c.stage is AwaitingTips,
        transition(c, Event::Tips { merkle_root, prev_side_hash, prev_main_hash }, next, action),
    ensures
        action matches Action::SubmitCommitment { bribe, header, body } && bribe == spec_bribe(
            c.stage->AwaitingTips_fee,
            c.min_bribe,
        ) && body == c.stage->AwaitingTips_body && header.merkle_root == merkle_root
            && coinbase_pays(body.coinbase@, c.stage->AwaitingTips_fee),
        next.attempt_pending(),
{
}

} // verus!
