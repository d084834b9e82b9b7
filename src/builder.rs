use vstd::prelude::*;

use crate::types::{sum_values, total_value, OutPoint, Output, Transaction};
use crate::utxo::{sum_inputs, UtxoSet};

verus! {

/// Why a draft cannot go to signing.
#[derive(Clone, Copy, Debug, PartialEq, Eq, Structural)]
pub enum DraftError {
    /// The outputs are worth more than the selected inputs.
    NotEnoughValueIn,
}

/// A copy of a sequence of outpoints.
fn copy_outpoints(v: &Vec<OutPoint>) -> (r: Vec<OutPoint>)
    ensures
        r@ == v@,
{
    let mut r: Vec<OutPoint> = Vec::new();
    let mut i: usize = 0;
    while i < v.len()
        invariant
            i <= v@.len(),
            r@ == v@.take(i as int),
        decreases v@.len() - i,
    {
        r.push(v[i]);
        i = i + 1;
        assert(r@ =~= v@.take(i as int));
    }
    assert(v@.take(i as int) =~= v@);
    r
}

/// A copy of a sequence of outputs.
fn copy_outputs(v: &Vec<Output>) -> (r: Vec<Output>)
    ensures
        r@ == v@,
{
    let mut r: Vec<Output> = Vec::new();
    let mut i: usize = 0;
    while i < v.len()
        invariant
            i <= v@.len(),
            r@ == v@.take(i as int),
        decreases v@.len() - i,
    {
        r.push(v[i]);
        i = i + 1;
        assert(r@ =~= v@.take(i as int));
    }
    assert(v@.take(i as int) =~= v@);
    r
}

/// A draft spend: the outpoints selected as inputs, in order, and the outputs to create, in
/// order. It is owned by one editing session until it is signed or thrown away.
pub struct TransactionBuilder {
    pub inputs: Vec<OutPoint>,
    pub outputs: Vec<Output>,
}

impl TransactionBuilder {
    /// No input is selected twice.
    pub open spec fn wf(&self) -> bool {
        self.inputs@.no_duplicates()
    }

    /// The draft's value in, as the unspent view `utxos` sees it.
    pub open spec fn spec_value_in(&self, utxos: Map<OutPoint, Output>) -> int {
        sum_inputs(self.inputs@, utxos)
    }

    /// The draft's value out.
    pub open spec fn spec_value_out(&self) -> int {
        sum_values(self.outputs@)
    }

    /// An empty draft.
    pub fn new() -> (r: TransactionBuilder)
        ensures
            r.wf(),
            r.inputs@.len() == 0,
            r.outputs@.len() == 0,
    {
        TransactionBuilder { inputs: Vec::new(), outputs: Vec::new() }
    }

    /// Selects `o` as the next input, unless it is selected already; says whether it was added.
    pub fn add_input(&mut self, o: OutPoint) -> (added: bool)
        requires
            old(self).wf(),
        ensures
            final(self).wf(),
            added == !old(self).inputs@.contains(o),
            final(self).inputs@ == (if added {
                old(self).inputs@.push(o)
            } else {
                old(self).inputs@
            }),
            final(self).outputs@ == old(self).outputs@,
    {
        let mut i: usize = 0;
        while i < self.inputs.len()
            invariant
                self.inputs@ == old(self).inputs@,
                self.outputs@ == old(self).outputs@,
                self.inputs@.no_duplicates(),
                i <= self.inputs@.len(),
                forall|j: int| 0 <= j < i ==> self.inputs@[j] != o,
            decreases self.inputs@.len() - i,
        {
            if self.inputs[i] == o {
                assert(self.inputs@.contains(o)) by {
                    assert(self.inputs@[i as int] == o);
                }
                return false;
            }
            i = i + 1;
        }
        self.inputs.push(o);
        true
    }

    /// Drops the input at `index`.
    pub fn remove_input(&mut self, index: usize)
        requires
            old(self).wf(),
            index < old(self).inputs@.len(),
        ensures
            final(self).wf(),
            final(self).inputs@ == old(self).inputs@.remove(index as int),
            final(self).outputs@ == old(self).outputs@,
    {
        let ghost before = self.inputs@;
        self.inputs.remove(index);
        assert forall|a: int, b: int|
            0 <= a < self.inputs@.len() && 0 <= b < self.inputs@.len() && a != b implies self.inputs@[a]
            != self.inputs@[b] by {
            let a0 = if a < index { a } else { a + 1 };
            let b0 = if b < index { b } else { b + 1 };
            assert(before[a0] == self.inputs@[a]);
            assert(before[b0] == self.inputs@[b]);
        }
    }

    /// Appends `output` to the outputs.
    pub fn add_output(&mut self, output: Output)
        requires
            old(self).wf(),
        ensures
            final(self).wf(),
            final(self).inputs@ == old(self).inputs@,
            final(self).outputs@ == old(self).outputs@.push(output),
    {
        self.outputs.push(output);
    }

    /// Drops the output at `index`.
    pub fn remove_output(&mut self, index: usize)
        requires
            old(self).wf(),
            index < old(self).outputs@.len(),
        ensures
            final(self).wf(),
            final(self).inputs@ == old(self).inputs@,
            final(self).outputs@ == old(self).outputs@.remove(index as int),
    {
        self.outputs.remove(index);
    }

    /// The sum of the values of the selected inputs in `utxos`; an input that `utxos` does not
    /// hold counts for nothing.
    pub fn value_in(&self, utxos: &UtxoSet) -> (r: u128)
        requires
            utxos.wf(),
        ensures
            r == self.spec_value_in(utxos@),
    {
        utxos.total_of(&self.inputs)
    }

    /// The sum of the values of the outputs.
    pub fn value_out(&self) -> (r: u128)
        ensures
            r == self.spec_value_out(),
    {
        total_value(&self.outputs)
    }

    /// Value in minus value out, when that is not negative.
    pub fn fee(&self, utxos: &UtxoSet) -> (r: Option<u128>)
        requires
            utxos.wf(),
        ensures
            r == (if self.spec_value_in(utxos@) >= self.spec_value_out() {
                Some((self.spec_value_in(utxos@) - self.spec_value_out()) as u128)
            } else {
                None::<u128>
            }),
    {
        let value_in = self.value_in(utxos);
        let value_out = self.value_out();
        if value_in >= value_out {
            Some(value_in - value_out)
        } else {
            None
        }
    }

    /// The transaction to hand to the wallet for signing. It is refused, before anything is
    /// signed or sent, when the outputs are worth more than the selected inputs.
    pub fn finalize(&self, utxos: &UtxoSet) -> (r: Result<Transaction, DraftError>)
        requires
            utxos.wf(),
        ensures
            r is Ok <==> self.spec_value_in(utxos@) >= self.spec_value_out(),
            r is Err ==> r == Err::<Transaction, DraftError>(DraftError::NotEnoughValueIn),
            r matches Ok(t) ==> t.inputs@ == self.inputs@ && t.outputs@ == self.outputs@,
    {
        if self.value_in(utxos) < self.value_out() {
            return Err(DraftError::NotEnoughValueIn);
        }
        Ok(Transaction { inputs: copy_outpoints(&self.inputs), outputs: copy_outputs(&self.outputs) })
    }

    /// Empties the draft, once its transaction has been sent.
    pub fn clear(&mut self)
        ensures
            final(self).wf(),
            final(self).inputs@.len() == 0,
            final(self).outputs@.len() == 0,
    {
        self.inputs = Vec::new();
        self.outputs = Vec::new();
    }
}

} // verus!
