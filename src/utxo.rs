use vstd::prelude::*;

use crate::types::{max_value, OutPoint, Output, Transaction};

verus! {

/// Whether some entry of `s` has key `k`.
pub open spec fn has_key(s: Seq<(OutPoint, Output)>, k: OutPoint) -> bool {
    exists|i: int| 0 <= i < s.len() && (#[trigger] s[i]).0 == k
}

/// No two entries of `s` share a key.
pub open spec fn keys_unique(s: Seq<(OutPoint, Output)>) -> bool {
    forall|i: int, j: int|
        0 <= i < s.len() && 0 <= j < s.len() && i != j ==> (#[trigger] s[i]).0 != (#[trigger] s[j]).0
}

/// The map that a sequence of entries with unique keys stands for.
pub open spec fn entries_map(s: Seq<(OutPoint, Output)>) -> Map<OutPoint, Output> {
    Map::new(
        |k: OutPoint| has_key(s, k),
        |k: OutPoint| s[choose|i: int| 0 <= i < s.len() && (#[trigger] s[i]).0 == k].1,
    )
}

/// The map that a sequence of entries builds when each entry is inserted in turn, a later
/// entry replacing an earlier one with the same key.
pub open spec fn collect_entries(s: Seq<(OutPoint, Output)>) -> Map<OutPoint, Output>
    decreases s.len(),
{
    if s.len() == 0 {
        Map::empty()
    } else {
        collect_entries(s.drop_last()).insert(s.last().0, s.last().1)
    }
}

/// The outpoints that some input of some transaction of `txs` spends.
pub open spec fn consumed(txs: Seq<Transaction>) -> Set<OutPoint> {
    Set::new(
        |o: OutPoint|
            exists|t: int, i: int|
                0 <= t < txs.len() && 0 <= i < txs[t].inputs@.len() && (#[trigger] txs[t].inputs@[i])
                    == o,
    )
}

/// The wallet's unspent view after reconciling it with the ledger's visible transactions:
/// every outpoint that one of them spends is gone.
pub open spec fn spec_reconcile(utxos: Map<OutPoint, Output>, txs: Seq<Transaction>) -> Map<
    OutPoint,
    Output,
> {
    utxos.remove_keys(consumed(txs))
}

/// The wallet's unspent view after the ledger reported the unspent outputs of the wallet's
/// addresses and which of the wallet's outpoints are spent: the reported ones are put in,
/// then the spent ones are taken out.
pub open spec fn spec_sync(
    utxos: Map<OutPoint, Output>,
    reported: Map<OutPoint, Output>,
    spent: Seq<OutPoint>,
) -> Map<OutPoint, Output> {
    utxos.union_prefer_right(reported).remove_keys(spent.to_set())
}

proof fn lemma_entry(s: Seq<(OutPoint, Output)>, i: int)
    requires
        keys_unique(s),
        0 <= i < s.len(),
    ensures
        entries_map(s).contains_key(s[i].0),
        entries_map(s)[s[i].0] == s[i].1,
{
    assert(has_key(s, s[i].0));
}

/// A sequence of entries with unique keys stands for `m` when it holds exactly `m`'s keys, each
/// with `m`'s value.
proof fn lemma_entries_map_is(s: Seq<(OutPoint, Output)>, m: Map<OutPoint, Output>)
    requires
        keys_unique(s),
        forall|k: OutPoint| has_key(s, k) <==> #[trigger] m.contains_key(k),
        forall|j: int| 0 <= j < s.len() ==> m[(#[trigger] s[j]).0] == s[j].1,
    ensures
        entries_map(s) == m,
{
    assert forall|k: OutPoint| #[trigger] entries_map(s).contains_key(k) implies entries_map(s)[k]
        == m[k] by {
        let j = choose|j: int| 0 <= j < s.len() && (#[trigger] s[j]).0 == k;
        lemma_entry(s, j);
    }
    assert(entries_map(s) =~= m);
}

proof fn lemma_entries_map_prefix(s: Seq<(OutPoint, Output)>, k: int)
    requires
        keys_unique(s),
        0 <= k < s.len(),
    ensures
        keys_unique(s.take(k + 1)),
        entries_map(s.take(k + 1)) == entries_map(s.take(k)).insert(s[k].0, s[k].1),
{
    let a = s.take(k);
    let b = s.take(k + 1);
    assert(keys_unique(a));
    assert(keys_unique(b));
    let m = entries_map(a).insert(s[k].0, s[k].1);
    assert forall|x: OutPoint| has_key(b, x) <==> #[trigger] m.contains_key(x) by {
        if has_key(b, x) {
            let j = choose|j: int| 0 <= j < b.len() && (#[trigger] b[j]).0 == x;
            if j < k {
                assert(a[j] == b[j]);
            }
        }
        if m.contains_key(x) && x != s[k].0 {
            let j = choose|j: int| 0 <= j < a.len() && (#[trigger] a[j]).0 == x;
            assert(b[j] == a[j]);
        }
        if x == s[k].0 {
            assert(b[k].0 == x);
        }
    }
    assert forall|j: int| 0 <= j < b.len() implies m[(#[trigger] b[j]).0] == b[j].1 by {
        if j < k {
            assert(a[j] == b[j]);
            lemma_entry(a, j);
        }
    }
    lemma_entries_map_is(b, m);
}

/// Whether some input of some transaction of `txs` spends `o`.
pub fn is_consumed(o: &OutPoint, txs: &Vec<Transaction>) -> (r: bool)
    ensures
        r == consumed(txs@).contains(*o),
{
    let mut t: usize = 0;
    while t < txs.len()
        invariant
            t <= txs@.len(),
            forall|u: int, i: int|
                0 <= u < t && 0 <= i < txs@[u].inputs@.len() ==> (#[trigger] txs@[u].inputs@[i]) != *o,
        decreases txs@.len() - t,
    {
        let inputs = &txs[t].inputs;
        let mut i: usize = 0;
        while i < inputs.len()
            invariant
                t < txs@.len(),
                *inputs == txs@[t as int].inputs,
                i <= inputs@.len(),
                forall|j: int| 0 <= j < i ==> (#[trigger] inputs@[j]) != *o,
            decreases inputs@.len() - i,
        {
            if inputs[i] == *o {
                assert(consumed(txs@).contains(*o)) by {
                    assert(txs@[t as int].inputs@[i as int] == *o);
                }
                return true;
            }
            i = i + 1;
        }
        t = t + 1;
    }
    false
}

/// What the unspent view `utxos` says the outpoint `o` is worth: nothing if it does not hold it.
pub open spec fn value_at(utxos: Map<OutPoint, Output>, o: OutPoint) -> int {
    if utxos.contains_key(o) {
        utxos[o].value() as int
    } else {
        0
    }
}

/// The sum of what `utxos` says each of `inputs` is worth.
pub open spec fn sum_inputs(inputs: Seq<OutPoint>, utxos: Map<OutPoint, Output>) -> int
    decreases inputs.len(),
{
    if inputs.len() == 0 {
        0
    } else {
        sum_inputs(inputs.drop_last(), utxos) + value_at(utxos, inputs.last())
    }
}

pub(crate) proof fn lemma_sum_inputs_bounds(inputs: Seq<OutPoint>, utxos: Map<OutPoint, Output>)
    ensures
        0 <= sum_inputs(inputs, utxos) <= inputs.len() * max_value(),
    decreases inputs.len(),
{
    if inputs.len() > 0 {
        lemma_sum_inputs_bounds(inputs.drop_last(), utxos);
    }
}

/// A set of unspent outputs, keyed by outpoint.
pub struct UtxoSet {
    entries: Vec<(OutPoint, Output)>,
}

impl View for UtxoSet {
    type V = Map<OutPoint, Output>;

    closed spec fn view(&self) -> Map<OutPoint, Output> {
        entries_map(self.entries@)
    }
}

impl UtxoSet {
    /// No outpoint appears twice.
    pub closed spec fn wf(&self) -> bool {
        keys_unique(self.entries@)
    }

    /// An empty set.
    pub fn new() -> (r: UtxoSet)
        ensures
            r.wf(),
            r@ == Map::<OutPoint, Output>::empty(),
    {
        let r = UtxoSet { entries: Vec::new() };
        assert(r@ =~= Map::<OutPoint, Output>::empty());
        r
    }

    /// The position of the entry with key `o`, if there is one.
    fn find(&self, o: &OutPoint) -> (r: Option<usize>)
        ensures
            match r {
                Some(i) => i < self.entries@.len() && self.entries@[i as int].0 == *o,
                None => !has_key(self.entries@, *o),
            },
    {
        let mut i: usize = 0;
        while i < self.entries.len()
            invariant
                i <= self.entries@.len(),
                forall|j: int| 0 <= j < i ==> (#[trigger] self.entries@[j]).0 != *o,
            decreases self.entries@.len() - i,
        {
            if self.entries[i].0 == *o {
                return Some(i);
            }
            i = i + 1;
        }
        None
    }

    /// The output at `o`, if the set holds one.
    pub fn get(&self, o: &OutPoint) -> (r: Option<Output>)
        requires
            self.wf(),
        ensures
            r == (if self@.contains_key(*o) {
                Some(self@[*o])
            } else {
                None::<Output>
            }),
    {
        match self.find(o) {
            Some(i) => {
                proof {
                    lemma_entry(self.entries@, i as int);
                }
                Some(self.entries[i].1)
            },
            None => None,
        }
    }

    /// Whether the set holds an output at `o`.
    pub fn contains(&self, o: &OutPoint) -> (r: bool)
        requires
            self.wf(),
        ensures
            r == self@.contains_key(*o),
    {
        match self.find(o) {
            Some(i) => {
                proof {
                    lemma_entry(self.entries@, i as int);
                }
                true
            },
            None => false,
        }
    }

    /// The sum of what the set says each of `inputs` is worth; an outpoint that the set does
    /// not hold counts for nothing.
    pub fn total_of(&self, inputs: &Vec<OutPoint>) -> (r: u128)
        requires
            self.wf(),
        ensures
            r == sum_inputs(inputs@, self@),
    {
        let mut total: u128 = 0;
        let mut i: usize = 0;
        while i < inputs.len()
            invariant
                self.wf(),
                i <= inputs@.len(),
                total == sum_inputs(inputs@.take(i as int), self@),
            decreases inputs@.len() - i,
        {
            proof {
                lemma_sum_inputs_bounds(inputs@.take(i as int), self@);
                assert(inputs@.take(i + 1).drop_last() =~= inputs@.take(i as int));
            }
            match self.get(&inputs[i]) {
                Some(output) => {
                    total = total + output.get_value() as u128;
                },
                None => {},
            }
            i = i + 1;
        }
        assert(inputs@.take(i as int) =~= inputs@);
        total
    }

    /// Whether the set holds every one of `inputs`.
    pub fn contains_all(&self, inputs: &Vec<OutPoint>) -> (r: bool)
        requires
            self.wf(),
        ensures
            r == forall|i: int| 0 <= i < inputs@.len() ==> self@.contains_key(#[trigger] inputs@[i]),
    {
        let mut i: usize = 0;
        while i < inputs.len()
            invariant
                self.wf(),
                i <= inputs@.len(),
                forall|j: int| 0 <= j < i ==> self@.contains_key(#[trigger] inputs@[j]),
            decreases inputs@.len() - i,
        {
            if !self.contains(&inputs[i]) {
                return false;
            }
            i = i + 1;
        }
        true
    }

    /// Takes out the output at `o`, if there is one.
    pub fn remove(&mut self, o: &OutPoint)
        requires
            old(self).wf(),
        ensures
            final(self).wf(),
            final(self)@ == old(self)@.remove(*o),
    {
        let ghost before = self.entries@;
        match self.find(o) {
            Some(i) => {
                self.entries.remove(i);
                proof {
                    let after = self.entries@;
                    assert(after == before.remove(i as int));
                    let m = entries_map(before).remove(*o);
                    assert forall|k: OutPoint| has_key(after, k) <==> #[trigger] m.contains_key(k) by {
                        if has_key(after, k) {
                            let j = choose|j: int| 0 <= j < after.len() && (#[trigger] after[j]).0 == k;
                            if j < i {
                                lemma_entry(before, j);
                            } else {
                                lemma_entry(before, j + 1);
                            }
                        }
                        if m.contains_key(k) {
                            let j = choose|j: int| 0 <= j < before.len() && (#[trigger] before[j]).0 == k;
                            if j < i {
                                assert(after[j].0 == k);
                            } else {
                                assert(after[j - 1].0 == k);
                            }
                        }
                    }
                    assert forall|j: int| 0 <= j < after.len() implies m[(#[trigger] after[j]).0]
                        == after[j].1 by {
                        if j < i {
                            lemma_entry(before, j);
                        } else {
                            lemma_entry(before, j + 1);
                        }
                    }
                    lemma_entries_map_is(after, m);
                }
            },
            None => {
                assert(entries_map(before) =~= entries_map(before).remove(*o));
            },
        }
    }

    /// The outpoints of the set, each once.
    pub fn outpoints(&self) -> (r: Vec<OutPoint>)
        requires
            self.wf(),
        ensures
            r@.no_duplicates(),
            forall|k: OutPoint| #[trigger] r@.contains(k) <==> self@.contains_key(k),
    {
        let mut r: Vec<OutPoint> = Vec::new();
        let mut i: usize = 0;
        while i < self.entries.len()
            invariant
                self.wf(),
                i <= self.entries@.len(),
                r@.len() == i,
                forall|j: int| 0 <= j < i ==> #[trigger] r@[j] == self.entries@[j].0,
            decreases self.entries@.len() - i,
        {
            r.push(self.entries[i].0);
            i = i + 1;
        }
        proof {
            let s = self.entries@;
            assert forall|k: OutPoint| #[trigger] r@.contains(k) <==> self@.contains_key(k) by {
                if r@.contains(k) {
                    let j = choose|j: int| 0 <= j < r@.len() && r@[j] == k;
                    lemma_entry(s, j);
                }
                if self@.contains_key(k) {
                    let j = choose|j: int| 0 <= j < s.len() && (#[trigger] s[j]).0 == k;
                    assert(r@[j] == k);
                }
            }
        }
        r
    }

    /// The entries of the set, each key once, in no particular order.
    pub fn to_vec(&self) -> (r: Vec<(OutPoint, Output)>)
        requires
            self.wf(),
        ensures
            keys_unique(r@),
            entries_map(r@) == self@,
    {
        let mut r: Vec<(OutPoint, Output)> = Vec::new();
        let mut i: usize = 0;
        while i < self.entries.len()
            invariant
                i <= self.entries@.len(),
                r@ == self.entries@.take(i as int),
            decreases self.entries@.len() - i,
        {
            r.push(self.entries[i]);
            i = i + 1;
            assert(r@ =~= self.entries@.take(i as int));
        }
        assert(r@ =~= self.entries@);
        r
    }

    /// The set that inserting each entry in turn builds: a later entry replaces an earlier one
    /// with the same outpoint.
    pub fn from_entries(entries: Vec<(OutPoint, Output)>) -> (r: UtxoSet)
        ensures
            r.wf(),
            r@ == collect_entries(entries@),
    {
        let mut r = UtxoSet::new();
        let mut i: usize = 0;
        while i < entries.len()
            invariant
                r.wf(),
                i <= entries@.len(),
                r@ == collect_entries(entries@.take(i as int)),
            decreases entries@.len() - i,
        {
            let (o, output) = entries[i];
            r.insert(o, output);
            proof {
                assert(entries@.take(i + 1).drop_last() =~= entries@.take(i as int));
            }
            i = i + 1;
        }
        assert(entries@.take(i as int) =~= entries@);
        r
    }

    /// Brings the set up to date with the ledger: puts in every output of `reported` (the
    /// unspent outputs that the ledger knows for the wallet's addresses), then takes out every
    /// outpoint of `spent` (those of the wallet's outpoints that the ledger reports spent).
    pub fn sync_with_addresses(&mut self, reported: &UtxoSet, spent: &Vec<OutPoint>)
        requires
            old(self).wf(),
            reported.wf(),
        ensures
            final(self).wf(),
            final(self)@ == spec_sync(old(self)@, reported@, spent@),
    {
        let ghost start = self@;
        let ghost rs = reported.entries@;
        let mut k: usize = 0;
        assert(entries_map(rs.take(0)) =~= Map::<OutPoint, Output>::empty());
        assert(start.union_prefer_right(Map::<OutPoint, Output>::empty()) =~= start);
        while k < reported.entries.len()
            invariant
                self.wf(),
                reported.wf(),
                rs == reported.entries@,
                k <= rs.len(),
                self@ == start.union_prefer_right(entries_map(rs.take(k as int))),
            decreases rs.len() - k,
        {
            let (o, output) = reported.entries[k];
            let ghost prev = self@;
            self.insert(o, output);
            proof {
                lemma_entries_map_prefix(rs, k as int);
                assert(self@ =~= start.union_prefer_right(entries_map(rs.take(k + 1))));
            }
            k = k + 1;
        }
        assert(rs.take(k as int) =~= rs);
        let ghost mid = self@;
        let mut j: usize = 0;
        assert(mid.remove_keys(spent@.take(0).to_set()) =~= mid);
        while j < spent.len()
            invariant
                self.wf(),
                j <= spent@.len(),
                self@ == mid.remove_keys(spent@.take(j as int).to_set()),
            decreases spent@.len() - j,
        {
            self.remove(&spent[j]);
            proof {
                let before_set = spent@.take(j as int).to_set();
                let after_set = spent@.take(j + 1).to_set();
                assert forall|x: OutPoint| #[trigger] after_set.contains(x) <==> (before_set.contains(x)
                    || x == spent@[j as int]) by {
                    if after_set.contains(x) {
                        let i = choose|i: int| 0 <= i < j + 1 && #[trigger] spent@.take(j + 1)[i] == x;
                        if i < j {
                            assert(spent@.take(j as int)[i] == x);
                        }
                    }
                    if before_set.contains(x) {
                        let i = choose|i: int| 0 <= i < j && #[trigger] spent@.take(j as int)[i] == x;
                        assert(spent@.take(j + 1)[i] == x);
                    }
                    if x == spent@[j as int] {
                        assert(spent@.take(j + 1)[j as int] == x);
                    }
                }
                assert(self@ =~= mid.remove_keys(after_set));
            }
            j = j + 1;
        }
        assert(spent@.take(j as int) =~= spent@);
    }

    /// Puts `output` at `o`, replacing what was there.
    pub fn insert(&mut self, o: OutPoint, output: Output)
        requires
            old(self).wf(),
        ensures
            final(self).wf(),
            final(self)@ == old(self)@.insert(o, output),
    {
        let ghost before = self.entries@;
        match self.find(&o) {
            Some(i) => {
                self.entries.set(i, (o, output));
                proof {
                    let after = self.entries@;
                    assert(keys_unique(after));
                    assert forall|k: OutPoint|
                        #[trigger] entries_map(after).contains_key(k) == entries_map(before).insert(
                            o,
                            output,
                        ).contains_key(k) by {
                        if has_key(before, k) {
                            let j = choose|j: int| 0 <= j < before.len() && (#[trigger] before[j]).0 == k;
                            assert(after[j].0 == k);
                        }
                        if has_key(after, k) {
                            let j = choose|j: int| 0 <= j < after.len() && (#[trigger] after[j]).0 == k;
                            assert(before[j].0 == k);
                        }
                    }
                    assert forall|k: OutPoint| #[trigger]
                        entries_map(after).contains_key(k) implies entries_map(after)[k]
                        == entries_map(before).insert(o, output)[k] by {
                        let j = choose|j: int| 0 <= j < after.len() && (#[trigger] after[j]).0 == k;
                        lemma_entry(after, j);
                        if k != o {
                            assert(before[j] == after[j]);
                            lemma_entry(before, j);
                        }
                    }
                    assert(entries_map(after) =~= entries_map(before).insert(o, output));
                }
            },
            None => {
                self.entries.push((o, output));
                proof {
                    let after = self.entries@;
                    assert(keys_unique(after));
                    assert forall|k: OutPoint|
                        #[trigger] entries_map(after).contains_key(k) == entries_map(before).insert(
                            o,
                            output,
                        ).contains_key(k) by {
                        if has_key(before, k) {
                            let j = choose|j: int| 0 <= j < before.len() && (#[trigger] before[j]).0 == k;
                            assert(after[j].0 == k);
                        }
                        if k == o {
                            assert(after[before.len() as int].0 == k);
                        }
                        if has_key(after, k) && k != o {
                            let j = choose|j: int| 0 <= j < after.len() && (#[trigger] after[j]).0 == k;
                            assert(before[j].0 == k);
                        }
                    }
                    assert forall|k: OutPoint| #[trigger]
                        entries_map(after).contains_key(k) implies entries_map(after)[k]
                        == entries_map(before).insert(o, output)[k] by {
                        let j = choose|j: int| 0 <= j < after.len() && (#[trigger] after[j]).0 == k;
                        lemma_entry(after, j);
                        if k != o {
                            assert(before[j] == after[j]);
                            lemma_entry(before, j);
                        } else {
                            lemma_entry(after, before.len() as int);
                        }
                    }
                    assert(entries_map(after) =~= entries_map(before).insert(o, output));
                }
            },
        }
    }
}

/// Recomputes the wallet's unspent view from scratch: of `utxos`, the outputs that no input of
/// the ledger's visible transactions `transactions` spends.
pub fn reconcile(utxos: &UtxoSet, transactions: &Vec<Transaction>) -> (r: UtxoSet)
    requires
        utxos.wf(),
    ensures
        r.wf(),
        r@ == spec_reconcile(utxos@, transactions@),
{
    let ghost before = utxos.entries@;
    let ghost spent = consumed(transactions@);
    let mut kept: Vec<(OutPoint, Output)> = Vec::new();
    // Where each kept entry came from.
    let ghost mut src: Seq<int> = Seq::empty();
    let mut i: usize = 0;
    while i < utxos.entries.len()
        invariant
            keys_unique(before),
            before == utxos.entries@,
            spent == consumed(transactions@),
            i <= before.len(),
            keys_unique(kept@),
            src.len() == kept@.len(),
            forall|a: int|
                0 <= a < kept@.len() ==> 0 <= #[trigger] src[a] < i && kept@[a] == before[src[a]]
                    && !spent.contains(before[src[a]].0),
            forall|j: int|
                0 <= j < i && !spent.contains((#[trigger] before[j]).0) ==> has_key(kept@, before[j].0),
        decreases before.len() - i,
    {
        let entry = utxos.entries[i];
        if !is_consumed(&entry.0, transactions) {
            let ghost old_kept = kept@;
            let ghost old_src = src;
            kept.push(entry);
            proof {
                src = src.push(i as int);
                assert forall|a: int| 0 <= a < old_kept.len() implies (#[trigger] kept@[a]).0 != entry.0 by {
                    assert(0 <= old_src[a] < i);
                    assert(kept@[a] == before[old_src[a]]);
                }
                assert(kept@[old_kept.len() as int] == entry);
                assert forall|j: int|
                    0 <= j < i + 1 && !spent.contains((#[trigger] before[j]).0) implies has_key(
                    kept@,
                    before[j].0,
                ) by {
                    if j < i {
                        let a = choose|a: int| 0 <= a < old_kept.len() && (#[trigger] old_kept[a]).0 == before[j].0;
                        assert(kept@[a] == old_kept[a]);
                    } else {
                        assert(kept@[old_kept.len() as int].0 == before[j].0);
                    }
                }
                assert forall|a: int| 0 <= a < kept@.len() implies 0 <= #[trigger] src[a] < i + 1
                    && kept@[a] == before[src[a]] && !spent.contains(before[src[a]].0) by {
                    if a < old_kept.len() {
                        assert(kept@[a] == old_kept[a]);
                        assert(src[a] == old_src[a]);
                    } else {
                        assert(src[a] == i);
                        assert(before[i as int] == entry);
                    }
                }
            }
        } else {
            assert(spent.contains(before[i as int].0));
        }
        i = i + 1;
    }
    let r = UtxoSet { entries: kept };
    proof {
        let m = spec_reconcile(entries_map(before), transactions@);
        assert forall|k: OutPoint| has_key(kept@, k) <==> #[trigger] m.contains_key(k) by {
            if has_key(kept@, k) {
                let a = choose|a: int| 0 <= a < kept@.len() && (#[trigger] kept@[a]).0 == k;
                assert(0 <= src[a] < i);
                lemma_entry(before, src[a]);
            }
            if m.contains_key(k) {
                let j = choose|j: int| 0 <= j < before.len() && (#[trigger] before[j]).0 == k;
            }
        }
        assert forall|a: int| 0 <= a < kept@.len() implies m[(#[trigger] kept@[a]).0] == kept@[a].1 by {
            assert(0 <= src[a] < i);
            lemma_entry(before, src[a]);
        }
        lemma_entries_map_is(kept@, m);
    }
    r
}

/// Reconciling an already reconciled view against the same transactions changes nothing.
pub proof fn lemma_reconcile_idempotent(utxos: Map<OutPoint, Output>, txs: Seq<Transaction>)
    ensures
        spec_reconcile(spec_reconcile(utxos, txs), txs) == spec_reconcile(utxos, txs),
{
    assert(spec_reconcile(spec_reconcile(utxos, txs), txs) =~= spec_reconcile(utxos, txs));
}

/// Nothing that a reconciled view holds is spent by a visible transaction.
pub proof fn lemma_reconcile_unspent(utxos: Map<OutPoint, Output>, txs: Seq<Transaction>, o: OutPoint)
    requires
        consumed(txs).contains(o),
    ensures
        !spec_reconcile(utxos, txs).contains_key(o),
{
}

} // verus!
