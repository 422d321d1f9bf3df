//! The distance between two texts is the length of the shortest run of edits.
use crate::scanner::common::fuzzy_match::{
    distance, distance_range, distance_symmetric, distance_zero,
};
use vstd::prelude::*;

verus! {

/// One character was inserted, deleted or replaced.
pub open spec fn one_edit(a: Seq<char>, b: Seq<char>) -> bool {
    ||| exists|i: int, x: char| 0 <= i <= a.len() && b == #[trigger] a.insert(i, x)
    ||| exists|i: int| 0 <= i < a.len() && b == #[trigger] a.remove(i)
    ||| exists|i: int, x: char| 0 <= i < a.len() && b == #[trigger] a.update(i, x)
}

/// Each text comes from the one before by one edit.
pub open spec fn edited(run: Seq<Seq<char>>) -> bool {
    run.len() >= 1 && forall|k: int| 0 <= k < run.len() - 1 ==> one_edit(#[trigger] run[k], run[k + 1])
}

/// What one more character at the end adds to a distance at most.
proof fn lemma_distance_steps(a: Seq<char>, b: Seq<char>)
    ensures
        a.len() > 0 ==> distance(a, b) <= distance(a.drop_last(), b) + 1,
        b.len() > 0 ==> distance(a, b) <= distance(a, b.drop_last()) + 1,
        a.len() > 0 && b.len() > 0 ==> distance(a, b) <= distance(a.drop_last(), b.drop_last()) + (
        if a.last() == b.last() {
            0int
        } else {
            1int
        }),
{
}

/// The way over a third text is never shorter.
pub proof fn distance_triangle(a: Seq<char>, b: Seq<char>, c: Seq<char>)
    ensures
        distance(a, c) <= distance(a, b) + distance(b, c),
    decreases a.len() + b.len() + c.len(),
{
    distance_range(a, b);
    distance_range(b, c);
    distance_range(a, c);
    lemma_distance_steps(a, c);
    if a.len() > 0 && b.len() > 0 && c.len() > 0 {
        let (x, y, z) = (a.drop_last(), b.drop_last(), c.drop_last());
        distance_triangle(x, b, c);
        distance_triangle(a, b, z);
        distance_triangle(a, y, c);
        distance_triangle(a, y, z);
        distance_triangle(x, y, c);
        distance_triangle(x, y, z);
    }
}

proof fn lemma_insert_is_near(a: Seq<char>, i: int, x: char)
    requires
        0 <= i <= a.len(),
    ensures
        distance(a, a.insert(i, x)) <= 1,
    decreases a.len(),
{
    let b = a.insert(i, x);
    lemma_distance_steps(a, b);
    if i == a.len() {
        assert(b.drop_last() =~= a);
        distance_zero(a, a);
    } else {
        assert(b.drop_last() =~= a.drop_last().insert(i, x));
        lemma_insert_is_near(a.drop_last(), i, x);
    }
}

proof fn lemma_update_is_near(a: Seq<char>, i: int, x: char)
    requires
        0 <= i < a.len(),
    ensures
        distance(a, a.update(i, x)) <= 1,
    decreases a.len(),
{
    let b = a.update(i, x);
    lemma_distance_steps(a, b);
    if i == a.len() - 1 {
        assert(b.drop_last() =~= a.drop_last());
        distance_zero(a.drop_last(), a.drop_last());
    } else {
        assert(b.drop_last() =~= a.drop_last().update(i, x));
        lemma_update_is_near(a.drop_last(), i, x);
    }
}

proof fn lemma_one_edit_is_near(a: Seq<char>, b: Seq<char>)
    requires
        one_edit(a, b),
    ensures
        distance(a, b) <= 1,
{
    if exists|i: int, x: char| 0 <= i <= a.len() && b == #[trigger] a.insert(i, x) {
        let (i, x) = choose|i: int, x: char| 0 <= i <= a.len() && b == #[trigger] a.insert(i, x);
        lemma_insert_is_near(a, i, x);
    } else if exists|i: int| 0 <= i < a.len() && b == #[trigger] a.remove(i) {
        let i = choose|i: int| 0 <= i < a.len() && b == #[trigger] a.remove(i);
        assert(b.insert(i, a[i]) =~= a);
        lemma_insert_is_near(b, i, a[i]);
        distance_symmetric(a, b);
    } else {
        let (i, x) = choose|i: int, x: char| 0 <= i < a.len() && b == #[trigger] a.update(i, x);
        lemma_update_is_near(a, i, x);
    }
}

/// No run of edits from one text to another is shorter than their distance.
pub proof fn no_shorter_run(run: Seq<Seq<char>>)
    requires
        edited(run),
    ensures
        distance(run[0], run.last()) <= run.len() - 1,
    decreases run.len(),
{
    if run.len() == 1 {
        distance_zero(run[0], run[0]);
    } else {
        let rest = run.drop_last();
        assert forall|k: int| 0 <= k < rest.len() - 1 implies one_edit(
            #[trigger] rest[k],
            rest[k + 1],
        ) by {
            assert(one_edit(run[k], run[k + 1]));
        }
        no_shorter_run(rest);
        let n = run.len() - 2;
        assert(one_edit(run[n], run[n + 1]));
        lemma_one_edit_is_near(run[n], run[n + 1]);
        distance_triangle(run[0], run[n], run[n + 1]);
    }
}

proof fn lemma_edit_before(a: Seq<char>, b: Seq<char>, c: char)
    requires
        one_edit(a, b),
    ensures
        one_edit(a.push(c), b.push(c)),
{
    if exists|i: int, x: char| 0 <= i <= a.len() && b == #[trigger] a.insert(i, x) {
        let (i, x) = choose|i: int, x: char| 0 <= i <= a.len() && b == #[trigger] a.insert(i, x);
        assert(b.push(c) =~= a.push(c).insert(i, x));
    } else if exists|i: int| 0 <= i < a.len() && b == #[trigger] a.remove(i) {
        let i = choose|i: int| 0 <= i < a.len() && b == #[trigger] a.remove(i);
        assert(b.push(c) =~= a.push(c).remove(i));
    } else {
        let (i, x) = choose|i: int, x: char| 0 <= i < a.len() && b == #[trigger] a.update(i, x);
        assert(b.push(c) =~= a.push(c).update(i, x));
    }
}

/// The run with one more text at its end.
proof fn lemma_edited_push(run: Seq<Seq<char>>, next: Seq<char>)
    requires
        edited(run),
        one_edit(run.last(), next),
    ensures
        edited(run.push(next)),
{
    let all = run.push(next);
    assert forall|k: int| 0 <= k < all.len() - 1 implies one_edit(#[trigger] all[k], all[k + 1]) by {
        if k < run.len() - 1 {
            assert(one_edit(run[k], run[k + 1]));
        }
    }
}

/// Some run of edits from one text to another is as short as their distance.
pub proof fn distance_is_reached(a: Seq<char>, b: Seq<char>) -> (run: Seq<Seq<char>>)
    ensures
        edited(run),
        run[0] == a,
        run.last() == b,
        run.len() - 1 == distance(a, b),
    decreases a.len() + b.len(),
{
    if a.len() == 0 {
        let run = Seq::new(b.len() + 1, |k: int| b.take(k));
        assert forall|k: int| 0 <= k < run.len() - 1 implies one_edit(
            #[trigger] run[k],
            run[k + 1],
        ) by {
            assert(b.take(k + 1) =~= b.take(k).insert(k, b[k]));
        }
        assert(run[0] =~= a);
        assert(run.last() =~= b);
        run
    } else if b.len() == 0 {
        let n = a.len() as int;
        let run = Seq::new(a.len() + 1, |k: int| a.take(n - k));
        assert forall|k: int| 0 <= k < run.len() - 1 implies one_edit(
            #[trigger] run[k],
            run[k + 1],
        ) by {
            assert(a.take(n - (k + 1)) =~= a.take(n - k).remove(n - k - 1));
        }
        assert(run[0] =~= a);
        assert(run.last() =~= b);
        run
    } else {
        let (x, y) = (a.drop_last(), b.drop_last());
        assert(a =~= x.push(a.last()));
        assert(b =~= y.push(b.last()));
        if distance(a, b) == distance(x, b) + 1 {
            let rest = distance_is_reached(x, b);
            let run = seq![a] + rest;
            assert(x =~= a.remove(a.len() - 1));
            assert forall|k: int| 0 <= k < run.len() - 1 implies one_edit(
                #[trigger] run[k],
                run[k + 1],
            ) by {
                if k > 0 {
                    assert(one_edit(rest[k - 1], rest[k]));
                }
            }
            assert(run.last() == rest.last());
            run
        } else if distance(a, b) == distance(a, y) + 1 {
            let rest = distance_is_reached(a, y);
            assert(b =~= y.insert(y.len() as int, b.last()));
            lemma_edited_push(rest, b);
            rest.push(b)
        } else {
            let rest = distance_is_reached(x, y);
            let c = a.last();
            let run = Seq::new(rest.len(), |k: int| rest[k].push(c));
            assert forall|k: int| 0 <= k < run.len() - 1 implies one_edit(
                #[trigger] run[k],
                run[k + 1],
            ) by {
                assert(one_edit(rest[k], rest[k + 1]));
                lemma_edit_before(rest[k], rest[k + 1], c);
            }
            if a.last() == b.last() {
                run
            } else {
                assert(b =~= run.last().update(y.len() as int, b.last()));
                lemma_edited_push(run, b);
                run.push(b)
            }
        }
    }
}

} // verus!
