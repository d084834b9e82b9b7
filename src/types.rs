use vstd::prelude::*;

verus! {

/// A 32-byte hash: a transaction id, a block hash or a merkle root.
pub type Digest = [u8; 32];

/// A 20-byte sidechain address.
pub type Address = [u8; 20];

/// Whether two byte arrays hold the same bytes.
pub fn same_bytes<const N: usize>(a: &[u8; N], b: &[u8; N]) -> (r: bool)
    ensures
        r == (*a == *b),
{
    let mut i: usize = 0;
    while i < N
        invariant
            i <= N,
            forall|j: int| 0 <= j < i ==> a[j] == b[j],
        decreases N - i,
    {
        if a[i] != b[i] {
            return false;
        }
        i = i + 1;
    }
    assert(*a =~= *b);
    true
}

/// Identifies a spendable source of value.
#[derive(Clone, Copy, Debug, Eq, Hash)]
pub enum OutPoint {
    /// Output `vout` of an earlier sidechain transaction.
    Regular { txid: Digest, vout: u32 },
    /// Funds moved in from the mainchain, named by their mainchain outpoint.
    Deposit { txid: Digest, vout: u32 },
    /// Output `vout` of the coinbase of the block with this merkle root.
    Coinbase { merkle_root: Digest, vout: u32 },
}

impl PartialEq for OutPoint {
    fn eq(&self, other: &OutPoint) -> (r: bool) {
        match (self, other) {
            (OutPoint::Regular { txid: a, vout: i }, OutPoint::Regular { txid: b, vout: j }) => {
                *i == *j && same_bytes(a, b)
            },
            (OutPoint::Deposit { txid: a, vout: i }, OutPoint::Deposit { txid: b, vout: j }) => {
                *i == *j && same_bytes(a, b)
            },
            (
                OutPoint::Coinbase { merkle_root: a, vout: i },
                OutPoint::Coinbase { merkle_root: b, vout: j },
            ) => *i == *j && same_bytes(a, b),
            _ => false,
        }
    }
}

impl vstd::std_specs::cmp::PartialEqSpecImpl for OutPoint {
    open spec fn obeys_eq_spec() -> bool {
        true
    }

    open spec fn eq_spec(&self, other: &OutPoint) -> bool {
        *self == *other
    }
}

/// The custom content of this sidechain's outputs. It carries no value of its own.
#[derive(Clone, Copy, Debug, PartialEq, Eq, Structural)]
pub struct Thunder;

impl Thunder {
    /// The value that custom content holds: none.
    pub fn get_value(&self) -> (r: u64)
        ensures
            r == 0,
    {
        0
    }
}

/// What an output carries.
#[derive(Clone, Copy, Debug, PartialEq, Eq)]
pub enum Content {
    /// A plain amount, in satoshis.
    Value(u64),
    /// Sidechain-specific content.
    Custom(Thunder),
}

impl Content {
    pub open spec fn value(self) -> u64 {
        match self {
            Content::Value(v) => v,
            Content::Custom(_) => 0,
        }
    }

    pub fn get_value(&self) -> (r: u64)
        ensures
            r == self.value(),
    {
        match self {
            Content::Value(v) => *v,
            Content::Custom(c) => c.get_value(),
        }
    }
}

/// An output: who may spend it and what it carries.
#[derive(Clone, Copy, Debug, PartialEq, Eq)]
pub struct Output {
    pub address: Address,
    pub content: Content,
}

impl Output {
    pub open spec fn value(self) -> u64 {
        self.content.value()
    }

    pub fn get_value(&self) -> (r: u64)
        ensures
            r == self.value(),
    {
        self.content.get_value()
    }
}

/// The sum of the values of a sequence of outputs.
pub open spec fn sum_values(outputs: Seq<Output>) -> int
    decreases outputs.len(),
{
    if outputs.len() == 0 {
        0
    } else {
        sum_values(outputs.drop_last()) + outputs.last().value()
    }
}

/// The largest value one output can carry.
pub open spec fn max_value() -> int {
    0xffff_ffff_ffff_ffff
}

pub(crate) proof fn lemma_sum_values_bounds(outputs: Seq<Output>)
    ensures
        0 <= sum_values(outputs) <= outputs.len() * max_value(),
    decreases outputs.len(),
{
    if outputs.len() > 0 {
        lemma_sum_values_bounds(outputs.drop_last());
    }
}

/// The sum of the values of `outputs`.
pub fn total_value(outputs: &Vec<Output>) -> (r: u128)
    ensures
        r == sum_values(outputs@),
{
    let mut total: u128 = 0;
    let mut i: usize = 0;
    while i < outputs.len()
        invariant
            i <= outputs@.len(),
            total == sum_values(outputs@.take(i as int)),
        decreases outputs@.len() - i,
    {
        proof {
            lemma_sum_values_bounds(outputs@.take(i as int));
            assert(outputs@.take(i + 1).drop_last() =~= outputs@.take(i as int));
        }
        total = total + outputs[i].get_value() as u128;
        i = i + 1;
    }
    assert(outputs@.take(i as int) =~= outputs@);
    total
}

/// A transaction: the outpoints it spends, in order, and the outputs it creates, in order.
#[derive(Clone, Debug, PartialEq, Eq)]
pub struct Transaction {
    pub inputs: Vec<OutPoint>,
    pub outputs: Vec<Output>,
}

impl Transaction {
    /// A transaction that spends nothing and creates nothing.
    pub fn new() -> (r: Transaction)
        ensures
            r.inputs@.len() == 0,
            r.outputs@.len() == 0,
    {
        Transaction { inputs: Vec::new(), outputs: Vec::new() }
    }
}

/// A signature over a transaction, with the key that made it.
#[derive(Clone, Copy, Debug, PartialEq, Eq)]
pub struct Authorization {
    pub public_key: [u8; 32],
    pub signature: [u8; 64],
}

/// A transaction together with one authorization for each of its inputs.
#[derive(Clone, Debug, PartialEq, Eq)]
pub struct AuthorizedTransaction {
    pub transaction: Transaction,
    pub authorizations: Vec<Authorization>,
}

/// The content of a block: its coinbase outputs, its transactions and all their
/// authorizations, transaction after transaction.
#[derive(Clone, Debug, PartialEq, Eq)]
pub struct Body {
    pub coinbase: Vec<Output>,
    pub transactions: Vec<Transaction>,
    pub authorizations: Vec<Authorization>,
}

/// The authorizations of a sequence of authorized transactions, one after the other.
pub open spec fn all_authorizations(txs: Seq<AuthorizedTransaction>) -> Seq<Authorization>
    decreases txs.len(),
{
    if txs.len() == 0 {
        Seq::empty()
    } else {
        all_authorizations(txs.drop_last()) + txs.last().authorizations@
    }
}

impl Body {
    /// Splits authorized transactions into the body's transactions and its authorizations.
    pub fn new(authorized: Vec<AuthorizedTransaction>, coinbase: Vec<Output>) -> (r: Body)
        ensures
            r.coinbase@ == coinbase@,
            r.transactions@.len() == authorized@.len(),
            forall|i: int|
                0 <= i < authorized@.len() ==> #[trigger] r.transactions@[i]
                    == authorized@[i].transaction,
            r.authorizations@ == all_authorizations(authorized@),
    {
        let ghost all = authorized@;
        let mut transactions: Vec<Transaction> = Vec::new();
        let mut authorizations: Vec<Authorization> = Vec::new();
        let n: usize = authorized.len();
        let mut rest = authorized;
        let mut k: usize = 0;
        while rest.len() > 0
            invariant
                k + rest@.len() == all.len(),
                all.len() == n,
                rest@ == all.skip(k as int),
                transactions@.len() == k,
                forall|i: int| 0 <= i < k ==> #[trigger] transactions@[i] == all[i].transaction,
                authorizations@ == all_authorizations(all.take(k as int)),
            decreases rest@.len(),
        {
            let item = rest.remove(0);
            assert(item == all[k as int]);
            assert(all.take(k + 1).drop_last() == all.take(k as int));
            assert(rest@ == all.skip(k + 1));
            let mut auths = item.authorizations;
            authorizations.append(&mut auths);
            transactions.push(item.transaction);
            k = k + 1;
        }
        assert(all.take(k as int) == all);
        Body { coinbase, transactions, authorizations }
    }
}

/// A block header: the merkle root of its body and the tips it builds on.
#[derive(Clone, Copy, Debug, PartialEq, Eq)]
pub struct Header {
    pub merkle_root: Digest,
    pub prev_side_hash: Digest,
    pub prev_main_hash: Digest,
}

} // verus!
