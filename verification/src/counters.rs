//! The progress counter bank: one counter per worker slot. First as a
//! mathematical object, a sequence of natural numbers, with what increments
//! do to it and to its sum; then as the executable bank.

use vstd::prelude::*;
use vstd::seq_lib::{commutative_foldl, lemma_fold_left_permutation};

verus! {

/// The sum of all counters of a bank.
pub open spec fn total(counts: Seq<nat>) -> nat
    decreases counts.len(),
{
    if counts.len() == 0 {
        0
    } else {
        total(counts.drop_last()) + counts.last()
    }
}

/// The bank after `amount` units were added to slot `slot`. A slot outside the
/// bank leaves it as it is.
pub open spec fn bump(counts: Seq<nat>, slot: int, amount: nat) -> Seq<nat> {
    if 0 <= slot < counts.len() {
        counts.update(slot, counts[slot] + amount)
    } else {
        counts
    }
}

/// A bank of `slots` counters that have not counted anything yet.
pub open spec fn zeros(slots: nat) -> Seq<nat> {
    Seq::new(slots, |i: int| 0nat)
}

/// Replacing one counter changes the sum by the difference of the two values.
pub proof fn lemma_total_update(counts: Seq<nat>, slot: int, value: nat)
    requires
        0 <= slot < counts.len(),
    ensures
        total(counts.update(slot, value)) + counts[slot] == total(counts) + value,
    decreases counts.len(),
{
    let updated = counts.update(slot, value);
    if slot == counts.len() - 1 {
        assert(updated.drop_last() =~= counts.drop_last());
    } else {
        assert(updated.drop_last() =~= counts.drop_last().update(slot, value));
        lemma_total_update(counts.drop_last(), slot, value);
    }
}

/// A fresh bank sums to zero.
pub proof fn lemma_total_zeros(slots: nat)
    ensures
        total(zeros(slots)) == 0,
    decreases slots,
{
    if slots > 0 {
        assert(zeros(slots).drop_last() =~= zeros((slots - 1) as nat));
        lemma_total_zeros((slots - 1) as nat);
    }
}

/// An increment of an existing slot raises the sum by exactly its amount and
/// leaves every other slot alone.
pub proof fn lemma_bump_total(counts: Seq<nat>, slot: int, amount: nat)
    requires
        0 <= slot < counts.len(),
    ensures
        total(bump(counts, slot, amount)) == total(counts) + amount,
        bump(counts, slot, amount).len() == counts.len(),
        forall|j: int|
            0 <= j < counts.len() && j != slot ==> bump(counts, slot, amount)[j] == counts[j],
{
    lemma_total_update(counts, slot, counts[slot] + amount);
}

/// One increment: `amount` units of work completed on slot `slot`.
pub struct Increment {
    pub slot: int,
    pub amount: nat,
}

/// The bank after one increment.
pub open spec fn count_one(counts: Seq<nat>, inc: Increment) -> Seq<nat> {
    bump(counts, inc.slot, inc.amount)
}

/// The bank after a sequence of increments, applied in the order given.
pub open spec fn apply(counts: Seq<nat>, incs: Seq<Increment>) -> Seq<nat> {
    incs.fold_left(counts, |c: Seq<nat>, inc: Increment| count_one(c, inc))
}

/// The sum of the amounts of a sequence of increments.
pub open spec fn amounts(incs: Seq<Increment>) -> nat
    decreases incs.len(),
{
    if incs.len() == 0 {
        0
    } else {
        amounts(incs.drop_last()) + incs.last().amount
    }
}

/// Every increment of the sequence names a slot of a bank with `slots` slots.
pub open spec fn in_range(incs: Seq<Increment>, slots: nat) -> bool {
    forall|k: int| 0 <= k < incs.len() ==> 0 <= #[trigger] incs[k].slot < slots
}

/// No update is lost: after any sequence of increments, over whichever slots
/// and in whichever order, the sum of the counters has grown by exactly the
/// sum of the amounts. The bank keeps its size, and no counter has gone down.
pub proof fn lemma_no_lost_updates(counts: Seq<nat>, incs: Seq<Increment>)
    requires
        in_range(incs, counts.len()),
    ensures
        total(apply(counts, incs)) == total(counts) + amounts(incs),
        apply(counts, incs).len() == counts.len(),
        forall|j: int| 0 <= j < counts.len() ==> apply(counts, incs)[j] >= counts[j],
    decreases incs.len(),
{
    if incs.len() > 0 {
        let before = apply(counts, incs.drop_last());
        lemma_no_lost_updates(counts, incs.drop_last());
        assert(apply(counts, incs) == count_one(before, incs.last()));
        lemma_bump_total(before, incs.last().slot, incs.last().amount);
    }
}

/// Counted from a fresh bank, the sum of the counters is the sum of all
/// amounts ever added.
pub proof fn lemma_total_is_work_done(slots: nat, incs: Seq<Increment>)
    requires
        in_range(incs, slots),
    ensures
        total(apply(zeros(slots), incs)) == amounts(incs),
{
    lemma_total_zeros(slots);
    lemma_no_lost_updates(zeros(slots), incs);
}

/// Two increments may be applied in either order.
pub proof fn lemma_increments_commute(counts: Seq<nat>, first: Increment, second: Increment)
    ensures
        count_one(count_one(counts, first), second) == count_one(
            count_one(counts, second),
            first,
        ),
{
    assert(count_one(count_one(counts, first), second) =~= count_one(
        count_one(counts, second),
        first,
    ));
}

/// The interleaving of the workers does not matter: two sequences that hold
/// the same increments, in any two orders, leave the same bank.
pub proof fn lemma_interleaving_is_irrelevant(
    counts: Seq<nat>,
    incs: Seq<Increment>,
    reordered: Seq<Increment>,
)
    requires
        incs.to_multiset() == reordered.to_multiset(),
    ensures
        apply(counts, incs) == apply(counts, reordered),
{
    let f = |c: Seq<nat>, inc: Increment| count_one(c, inc);
    assert(commutative_foldl(f)) by {
        assert forall|x: Increment, y: Increment, v: Seq<nat>| #[trigger]
            f(f(v, x), y) == f(f(v, y), x) by {
            lemma_increments_commute(v, x, y);
        }
    }
    lemma_fold_left_permutation(incs, reordered, f, counts);
}

/// The counters of an executable bank, as the natural numbers they stand for.
pub open spec fn as_nats(counts: Seq<u64>) -> Seq<nat> {
    counts.map_values(|c: u64| c as nat)
}

/// Adds up a bank of counters. The sum of 64-bit counters always fits in 128
/// bits, so there is no input on which this fails.
pub fn sum_counts(counts: &Vec<u64>) -> (sum: u128)
    ensures
        sum == total(as_nats(counts@)),
{
    let ghost nats = as_nats(counts@);
    let n: usize = counts.len();
    let mut sum: u128 = 0;
    let mut i: usize = 0;
    while i < n
        invariant
            i <= n,
            n == counts.len(),
            nats == as_nats(counts@),
            sum == total(nats.take(i as int)),
            sum <= i * u64::MAX,
        decreases n - i,
    {
        proof {
            assert(nats.take(i + 1).drop_last() =~= nats.take(i as int));
            assert(nats.take(i + 1).last() == counts[i as int] as nat);
            assert((i + 1) * u64::MAX <= u128::MAX) by (nonlinear_arith)
                requires
                    i < n,
                    n <= u64::MAX,
            ;
            assert(i * u64::MAX + u64::MAX == (i + 1) * u64::MAX) by (nonlinear_arith);
        }
        sum = sum + counts[i] as u128;
        i = i + 1;
    }
    proof {
        assert(nats.take(n as int) =~= nats);
    }
    sum
}

/// The progress counter bank: one counter per worker slot. A slot's counter
/// only ever grows, and only by what is added to it.
pub struct CounterBank {
    counts: Vec<u64>,
}

impl View for CounterBank {
    type V = Seq<nat>;

    closed spec fn view(&self) -> Seq<nat> {
        as_nats(self.counts@)
    }
}

impl CounterBank {
    /// A bank of `slots` counters, all at zero.
    pub fn new(slots: usize) -> (bank: CounterBank)
        ensures
            bank@ == zeros(slots as nat),
    {
        let mut counts: Vec<u64> = Vec::with_capacity(slots);
        let mut i: usize = 0;
        while i < slots
            invariant
                i <= slots,
                counts@.len() == i,
                forall|j: int| 0 <= j < i ==> counts@[j] == 0,
            decreases slots - i,
        {
            counts.push(0);
            i = i + 1;
        }
        proof {
            assert(as_nats(counts@) =~= zeros(slots as nat));
        }
        CounterBank { counts }
    }

    /// The number of slots.
    pub fn len(&self) -> (slots: usize)
        ensures
            slots == self@.len(),
    {
        self.counts.len()
    }

    /// The counter of slot `slot`.
    pub fn get(&self, slot: usize) -> (count: u64)
        requires
            slot < self@.len(),
        ensures
            count == self@[slot as int],
    {
        self.counts[slot]
    }

    /// Adds `amount` to the counter of slot `slot`.
    pub fn add(&mut self, slot: usize, amount: u64)
        requires
            slot < old(self)@.len(),
            old(self)@[slot as int] + amount <= u64::MAX,
        ensures
            final(self)@ == bump(old(self)@, slot as int, amount as nat),
        no_unwind
    {
        let raised: u64 = self.counts[slot] + amount;
        self.counts[slot] = raised;
        proof {
            assert(as_nats(self.counts@) =~= bump(
                as_nats(old(self).counts@),
                slot as int,
                amount as nat,
            ));
        }
    }

    /// The sum of all counters.
    pub fn total(&self) -> (sum: u128)
        ensures
            sum == total(self@),
    {
        sum_counts(&self.counts)
    }
}

} // verus!
