use vstd::prelude::*;

use crate::types::{sum_values, total_value, OutPoint, Output, Transaction};
use crate::utxo::{sum_inputs, UtxoSet};

verus! {

/// What the wallet's view `utxos` says a transaction takes in: the sum of its inputs' values
/// when the view holds every input, and nothing otherwise.
pub open spec fn known_value_in(inputs: Seq<OutPoint>, utxos: Map<OutPoint, Output>) -> int {
    if forall|i: int| 0 <= i < inputs.len() ==> utxos.contains_key(#[trigger] inputs[i]) {
        sum_inputs(inputs, utxos)
    } else {
        0
    }
}

/// Browses the ledger's pending transactions; `current` is the one on view.
pub struct MemPoolExplorer {
    pub current: usize,
}

impl Default for MemPoolExplorer {
    fn default() -> (r: MemPoolExplorer)
        ensures
            r.current == 0,
    {
        MemPoolExplorer { current: 0 }
    }
}

impl MemPoolExplorer {
    /// Puts the transaction at `index` on view.
    pub fn select(&mut self, index: usize)
        ensures
            final(self).current == index,
    {
        self.current = index;
    }

    /// The transaction on view, if `transactions` has one at that position.
    pub fn selected<'a>(&self, transactions: &'a Vec<Transaction>) -> (r: Option<&'a Transaction>)
        ensures
            r == (if self.current < transactions@.len() {
                Some(&transactions@[self.current as int])
            } else {
                None::<&Transaction>
            }),
    {
        if self.current < transactions.len() {
            Some(&transactions[self.current])
        } else {
            None
        }
    }

    /// What `transaction` takes in, as the wallet's view `utxos` sees it: nothing unless the
    /// view holds every input.
    pub fn value_in(transaction: &Transaction, utxos: &UtxoSet) -> (r: u128)
        requires
            utxos.wf(),
        ensures
            r == known_value_in(transaction.inputs@, utxos@),
    {
        if utxos.contains_all(&transaction.inputs) {
            utxos.total_of(&transaction.inputs)
        } else {
            0
        }
    }

    /// The fee `transaction` pays as the wallet's view sees it; `None` marks a transaction
    /// that seems to spend more than it takes in.
    pub fn fee(transaction: &Transaction, utxos: &UtxoSet) -> (r: Option<u128>)
        requires
            utxos.wf(),
        ensures
            r == (if known_value_in(transaction.inputs@, utxos@) >= sum_values(transaction.outputs@) {
                Some((known_value_in(transaction.inputs@, utxos@) - sum_values(transaction.outputs@)) as u128)
            } else {
                None::<u128>
            }),
    {
        let value_in = MemPoolExplorer::value_in(transaction, utxos);
        let value_out = total_value(&transaction.outputs);
        if value_in >= value_out {
            Some(value_in - value_out)
        } else {
            None
        }
    }
}

/// The kind of output being drafted.
#[derive(Clone, Copy, Debug, PartialEq, Eq, Structural)]
pub enum UtxoType {
    Regular,
    Withdrawal,
}

impl UtxoType {
    /// The kind's name, as it is shown.
    pub fn to_string(&self) -> (r: String)
        ensures
            r@ == (match self {
                UtxoType::Regular => "regular"@,
                UtxoType::Withdrawal => "withdrawal"@,
            }),
    {
        match self {
            UtxoType::Regular => String::from_str("regular"),
            UtxoType::Withdrawal => String::from_str("withdrawal"),
        }
    }
}

/// The form in which a new output is drafted, field by field as typed.
pub struct UtxoCreator {
    pub utxo_type: UtxoType,
    pub value: String,
    pub address: String,
    pub main_address: String,
    pub main_fee: String,
}

impl Default for UtxoCreator {
    fn default() -> (r: UtxoCreator)
        ensures
            r.utxo_type == UtxoType::Regular,
            r.value@.len() == 0,
            r.address@.len() == 0,
            r.main_address@.len() == 0,
            r.main_fee@.len() == 0,
    {
        UtxoCreator {
            utxo_type: UtxoType::Regular,
            value: String::new(),
            address: String::new(),
            main_address: String::new(),
            main_fee: String::new(),
        }
    }
}

impl UtxoCreator {
    /// Whether the form asks for a mainchain address and fee: only for a withdrawal.
    pub fn needs_mainchain_fields(&self) -> (r: bool)
        ensures
            r == (self.utxo_type == UtxoType::Withdrawal),
    {
        self.utxo_type == UtxoType::Withdrawal
    }
}

} // verus!
