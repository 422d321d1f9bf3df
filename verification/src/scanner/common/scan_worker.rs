//! Bringing the results of parallel work back into order.
use std::collections::BTreeMap;
use vstd::prelude::*;

verus! {

/// So many errors in a row stop the scan.
pub const MAX_CONSECUTIVE_ERRORS: usize = 10;

/// What became of one item.
#[derive(Debug)]
pub enum Outcome<R> {
    /// A result.
    Item(R),
    /// An item without a result.
    Skipped,
    /// An error.
    Failed,
}

/// The results among some outcomes, in their order.
pub open spec fn results<R>(log: Seq<Outcome<R>>) -> Seq<R>
    decreases log.len(),
{
    if log.len() == 0 {
        Seq::empty()
    } else {
        let earlier = results(log.drop_last());
        match log.last() {
            Outcome::Item(r) => earlier.push(r),
            _ => earlier,
        }
    }
}

/// How many errors stand at the end of some outcomes.
pub open spec fn trailing_errors<R>(log: Seq<Outcome<R>>) -> nat
    decreases log.len(),
{
    if log.len() > 0 && log.last() is Failed {
        trailing_errors(log.drop_last()) + 1
    } else {
        0
    }
}

/// Somewhere in the outcomes there are enough errors in a row.
pub open spec fn too_many_errors<R>(log: Seq<Outcome<R>>) -> bool {
    exists|n: int|
        0 <= n <= log.len() && trailing_errors(#[trigger] log.take(n)) >= MAX_CONSECUTIVE_ERRORS
}

/// Collects outcomes that arrive in any order.
pub struct Collector<R> {
    waiting: BTreeMap<usize, Outcome<R>>,
    next_index: usize,
    output: Vec<R>,
    consecutive_errors: usize,
    should_stop: bool,
    log: Ghost<Seq<Outcome<R>>>,
}

/// Outcome `k` is that of item `k`.
pub open spec fn is_outcome<R>(
    log: Seq<Outcome<R>>,
    all: Map<usize, Outcome<R>>,
    k: int,
) -> bool {
    all.contains_key(k as usize) && log[k] == all[k as usize]
}

/// The outcomes from `from` up to `to` are those of the items of these numbers.
pub open spec fn outcomes_of<R>(
    log: Seq<Outcome<R>>,
    all: Map<usize, Outcome<R>>,
    from: int,
    to: int,
) -> bool {
    forall|k: int| from <= k < to ==> #[trigger] is_outcome(log, all, k)
}

/// What waits are the outcomes of all items but those from `from` up to `to`.
pub open spec fn waits_outside<R>(
    waiting: Map<usize, Outcome<R>>,
    all: Map<usize, Outcome<R>>,
    from: int,
    to: int,
) -> bool {
    forall|k: usize| #[trigger]
        waiting.contains_key(k) == (all.contains_key(k) && !(from <= k < to)) && (
        waiting.contains_key(k) ==> waiting[k] == all[k])
}

fn put<R>(map: &mut BTreeMap<usize, R>, key: usize, value: R)
    ensures
        final(map)@ == old(map)@.insert(key, value),
{
    broadcast use vstd::std_specs::btree::group_btree_axioms;
    broadcast use vstd::laws_cmp::group_laws_cmp;

    map.insert(key, value);
}

fn take<R>(map: &mut BTreeMap<usize, R>, key: usize) -> (value: Option<R>)
    ensures
        final(map)@ == old(map)@.remove(key),
        match value {
            Some(v) => old(map)@.contains_key(key) && v == old(map)@[key],
            None => !old(map)@.contains_key(key),
        },
{
    broadcast use vstd::std_specs::btree::group_btree_axioms;
    broadcast use vstd::laws_cmp::group_laws_cmp;

    map.remove(&key)
}

impl<R> Collector<R> {
    /// The outcomes whose turn has not come.
    pub closed spec fn waiting(&self) -> Map<usize, Outcome<R>> {
        self.waiting@
    }

    /// The outcomes whose turn has come, from item 0 on.
    pub closed spec fn log(&self) -> Seq<Outcome<R>> {
        self.log@
    }

    /// What every collector keeps to: each outcome whose turn has come was
    /// counted, and none waits whose turn it is.
    pub closed spec fn valid(&self) -> bool {
        &&& self.log@.len() == self.next_index
        &&& self.output@ == results(self.log@)
        &&& self.consecutive_errors == trailing_errors(self.log@)
        &&& self.should_stop == too_many_errors(self.log@)
        &&& !self.waiting@.contains_key(self.next_index)
        &&& !self.waiting@.contains_key(usize::MAX)
    }

    /// A collector that has got nothing.
    pub fn new() -> (c: Self)
        ensures
            c.valid(),
            c.log() == Seq::<Outcome<R>>::empty(),
            c.waiting() == Map::<usize, Outcome<R>>::empty(),
    {
        let c = Collector {
            waiting: BTreeMap::new(),
            next_index: 0,
            output: Vec::new(),
            consecutive_errors: 0,
            should_stop: false,
            log: Ghost(Seq::empty()),
        };
        proof {
            assert forall|n: int| 0 <= n <= 0 implies trailing_errors(
                #[trigger] Seq::<Outcome<R>>::empty().take(n),
            ) == 0 by {}
        }
        c
    }

    /// Takes in the outcome of an item, and with it all that waited for it.
    pub fn accept(&mut self, index: usize, outcome: Outcome<R>)
        requires
            old(self).valid(),
            index < usize::MAX,
        ensures
            final(self).valid(),
            ({
                let all = old(self).waiting().insert(index, outcome);
                let from = old(self).log().len() as int;
                let to = final(self).log().len() as int;
                &&& from <= to
                &&& final(self).log().take(from) == old(self).log()
                &&& outcomes_of(final(self).log(), all, from, to)
                &&& !all.contains_key(to as usize)
                &&& waits_outside(final(self).waiting(), all, from, to)
            }),
    {
        put(&mut self.waiting, index, outcome);
        let ghost all = self.waiting@;
        let ghost from = self.log@.len();
        let ghost first = self.log@;
        let mut more = true;
        while more && self.next_index < usize::MAX
            invariant
                from <= self.next_index,
                from == first.len(),
                self.counted(),
                self.log@.take(from as int) == first,
                !all.contains_key(usize::MAX),
                outcomes_of(self.log@, all, from as int, self.next_index as int),
                waits_outside(self.waiting@, all, from as int, self.next_index as int),
                !more ==> !all.contains_key(self.next_index),
            decreases usize::MAX - self.next_index + (if more { 1int } else { 0int }),
        {
            let ghost before = *self;
            let ghost n = self.next_index;
            more = self.step();
            proof {
                assert(before.waiting@.contains_key(n) == all.contains_key(n));
                assert(self.log@.take(from as int) =~= first);
                let log = self.log@;
                let to = self.next_index as int;
                assert forall|k: int| from <= k < to implies #[trigger] is_outcome(
                    log,
                    all,
                    k,
                ) by {
                    if k < n {
                        assert(is_outcome(before.log@, all, k));
                    }
                }
                if more {
                    assert forall|k: usize| #[trigger]
                        self.waiting@.contains_key(k) == (all.contains_key(k) && !(from <= k
                            < self.next_index)) && (self.waiting@.contains_key(k)
                            ==> self.waiting@[k] == all[k]) by {
                        assert(before.waiting@.contains_key(k) == (all.contains_key(k) && !(from
                            <= k < n)));
                    }
                }
            }
        }
    }

    /// Every outcome whose turn has come was counted.
    spec fn counted(&self) -> bool {
        &&& self.log@.len() == self.next_index
        &&& self.output@ == results(self.log@)
        &&& self.consecutive_errors == trailing_errors(self.log@)
        &&& self.should_stop == too_many_errors(self.log@)
    }

    /// Counts the outcome whose turn it is, where it has arrived.
    fn step(&mut self) -> (more: bool)
        requires
            old(self).next_index < usize::MAX,
            old(self).counted(),
        ensures
            final(self).counted(),
            more == old(self).waiting@.contains_key(old(self).next_index),
            more ==> final(self).next_index == old(self).next_index + 1 && final(self).log@
                == old(self).log@.push(old(self).waiting@[old(self).next_index])
                && final(self).waiting@ == old(self).waiting@.remove(old(self).next_index),
            !more ==> final(self).next_index == old(self).next_index && final(self).log@
                == old(self).log@ && final(self).waiting@ == old(self).waiting@,
    {
        let next: usize = self.next_index;
        let ghost before = self.waiting@;
        match take(&mut self.waiting, next) {
            Some(outcome) => {
                self.count(outcome);
                true
            },
            None => {
                assert(before.remove(next) =~= before);
                false
            },
        }
    }

    /// Counts the outcome whose turn it is.
    fn count(&mut self, outcome: Outcome<R>)
        requires
            old(self).next_index < usize::MAX,
            old(self).log@.len() == old(self).next_index,
            old(self).output@ == results(old(self).log@),
            old(self).consecutive_errors == trailing_errors(old(self).log@),
            old(self).should_stop == too_many_errors(old(self).log@),
        ensures
            final(self).waiting == old(self).waiting,
            final(self).next_index == old(self).next_index + 1,
            final(self).log@ == old(self).log@.push(outcome),
            final(self).output@ == results(final(self).log@),
            final(self).consecutive_errors == trailing_errors(final(self).log@),
            final(self).should_stop == too_many_errors(final(self).log@),
    {
        let ghost before = self.log@;
        let ghost after = before.push(outcome);
        proof {
            assert(after.drop_last() =~= before);
            lemma_trailing_bound(before);
            lemma_error_grows(before, outcome);
        }
        match outcome {
            Outcome::Item(r) => {
                self.output.push(r);
                self.consecutive_errors = 0;
            },
            Outcome::Skipped => {
                self.consecutive_errors = 0;
            },
            Outcome::Failed => {
                self.consecutive_errors = self.consecutive_errors + 1;
                if self.consecutive_errors >= MAX_CONSECUTIVE_ERRORS {
                    self.should_stop = true;
                }
            },
        }
        self.next_index = self.next_index + 1;
        proof {
            self.log = Ghost(after);
        }
    }

    /// Whether so many errors came in a row that the scan is to stop.
    pub fn stop_requested(&self) -> (stop: bool)
        requires
            self.valid(),
        ensures
            stop == too_many_errors(self.log()),
    {
        self.should_stop
    }

    /// How many outcomes had their turn.
    pub fn position(&self) -> (n: usize)
        requires
            self.valid(),
        ensures
            n == self.log().len(),
    {
        self.next_index
    }

    /// The results in the order of their items.
    pub fn finish(self) -> (out: Vec<R>)
        requires
            self.valid(),
        ensures
            out@ == results(self.log()),
    {
        self.output
    }
}

proof fn lemma_trailing_bound<R>(log: Seq<Outcome<R>>)
    ensures
        trailing_errors(log) <= log.len(),
    decreases log.len(),
{
    if log.len() > 0 {
        lemma_trailing_bound(log.drop_last());
    }
}

proof fn lemma_error_grows<R>(log: Seq<Outcome<R>>, outcome: Outcome<R>)
    ensures
        too_many_errors(log.push(outcome)) == (too_many_errors(log) || trailing_errors(
            log.push(outcome),
        ) >= MAX_CONSECUTIVE_ERRORS),
{
    let after = log.push(outcome);
    assert(after.take(after.len() as int) =~= after);
    if too_many_errors(log) {
        let n = choose|n: int|
            0 <= n <= log.len() && trailing_errors(#[trigger] log.take(n))
                >= MAX_CONSECUTIVE_ERRORS;
        assert(after.take(n) =~= log.take(n));
    }
    if too_many_errors(after) {
        let n = choose|n: int|
            0 <= n <= after.len() && trailing_errors(#[trigger] after.take(n))
                >= MAX_CONSECUTIVE_ERRORS;
        if n <= log.len() {
            assert(after.take(n) =~= log.take(n));
        }
    }
}

/// What was scanned is kept in the order of the items; what was skipped or failed
/// adds nothing.
pub proof fn results_keep_their_order<R>(a: Seq<Outcome<R>>, b: Seq<Outcome<R>>, r: R)
    ensures
        results(a.push(Outcome::Item(r))) == results(a).push(r),
        results(a.push(Outcome::Skipped)) == results(a),
        results(a.push(Outcome::Failed)) == results(a),
        results(Seq::<Outcome<R>>::empty()).len() == 0,
        results(a + b) == results(a) + results(b),
    decreases b.len(),
{
    assert(a.push(Outcome::Item(r)).drop_last() =~= a);
    assert(a.push(Outcome::Skipped).drop_last() =~= a);
    assert(a.push(Outcome::Failed).drop_last() =~= a);
    if b.len() == 0 {
        assert(a + b =~= a);
        assert(results(a) + results(b) =~= results(a));
    } else {
        results_keep_their_order(a, b.drop_last(), r);
        assert((a + b).drop_last() =~= a + b.drop_last());
        assert((a + b).last() == b.last());
        assert(results(a + b) =~= results(a) + results(b));
    }
}

/// The ten items before a place all failed.
pub open spec fn ten_failed<R>(log: Seq<Outcome<R>>, n: int) -> bool {
    10 <= n <= log.len() && forall|k: int| n - 10 <= k < n ==> #[trigger] log[k] is Failed
}

proof fn lemma_trailing<R>(log: Seq<Outcome<R>>, m: nat)
    ensures
        trailing_errors(log) >= m <==> m <= log.len() && forall|k: int|
            log.len() - m <= k < log.len() ==> #[trigger] log[k] is Failed,
    decreases log.len(),
{
    if m > 0 && log.len() > 0 {
        let rest = log.drop_last();
        lemma_trailing(rest, (m - 1) as nat);
        if log.last() is Failed && trailing_errors(rest) >= m - 1 {
            assert forall|k: int| log.len() - m <= k < log.len() implies #[trigger] log[k] is Failed by {
                if k < log.len() - 1 {
                    assert(rest[k] == log[k]);
                }
            }
        }
        if m <= log.len() && (forall|k: int|
            log.len() - m <= k < log.len() ==> #[trigger] log[k] is Failed) {
            assert(log[log.len() - 1] is Failed);
            assert forall|k: int| rest.len() - (m - 1) <= k < rest.len() implies #[trigger] rest[k] is Failed by {
                assert(log[k] is Failed);
            }
        }
        if trailing_errors(log) >= m {
            assert(log.last() is Failed);
            assert(log[log.len() - 1] is Failed);
        }
    }
}

/// A scan stops exactly where ten items in a row have failed.
pub proof fn ten_failures_in_a_row_stop<R>(log: Seq<Outcome<R>>)
    ensures
        too_many_errors(log) <==> exists|n: int| #[trigger] ten_failed(log, n),
{
    if too_many_errors(log) {
        let n = choose|n: int|
            0 <= n <= log.len() && trailing_errors(#[trigger] log.take(n))
                >= MAX_CONSECUTIVE_ERRORS;
        lemma_trailing(log.take(n), 10);
        assert forall|k: int| n - 10 <= k < n implies #[trigger] log[k] is Failed by {
            assert(log.take(n)[k] is Failed);
        }
        assert(ten_failed(log, n));
    }
    if exists|n: int| #[trigger] ten_failed(log, n) {
        let n = choose|n: int| #[trigger] ten_failed(log, n);
        let part = log.take(n);
        assert forall|k: int| part.len() - 10 <= k < part.len() implies #[trigger] part[k] is Failed by {
            assert(log[k] is Failed);
        }
        lemma_trailing(part, 10);
        assert(trailing_errors(log.take(n)) >= MAX_CONSECUTIVE_ERRORS);
    }
}

} // verus!
