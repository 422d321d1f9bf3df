//! When readings can be solved.
use crate::scanner::common::roll_solver::{
    ascending_set, assignment_is_complete, assignment_is_sound, better, chosen, clamped, counts_for,
    describes, first_fit, fits, in_doubt, is_assignment, max_level_of, no_fit,
    plan_rolls, plans_for, plans_for_level, raised_levels, roll_counts, selectable, solution,
    solved_by, sum_of, OcrCandidate, Plan, SolverInput, SolverResult,
};
use vstd::prelude::*;

verus! {

/// A reading of a substat: its key and its value in millionths.
pub type Reading = (Seq<char>, i64);

/// What is chosen on a line: nothing, or a reading and how often it was rolled.
pub type Choice = Option<(Seq<char>, i64, i32)>;

/// The key of a choice.
pub open spec fn stat_chosen(choice: Choice) -> Seq<char> {
    match choice {
        Some((key, _, _)) => key,
        None => Seq::empty(),
    }
}

/// How often what is chosen was rolled.
pub open spec fn times_rolled(choice: Choice) -> i32 {
    match choice {
        Some((_, _, rolls)) => rolls,
        None => 0,
    }
}

/// The readings of the lines.
pub open spec fn readings(lines: Seq<Vec<OcrCandidate>>) -> Seq<Seq<Reading>> {
    Seq::new(
        lines.len(),
        |i: int| Seq::new(lines[i]@.len(), |k: int| (lines[i]@[k].key@, lines[i]@[k].value)),
    )
}

/// On how many of the first `n` lines something is chosen.
pub open spec fn choices(picks: Seq<Choice>, n: nat) -> int
    decreases n,
{
    if n == 0 {
        0
    } else {
        choices(picks, (n - 1) as nat) + if picks[n - 1] is Some {
            1int
        } else {
            0int
        }
    }
}

/// The rolls of what is chosen on the first `n` lines.
pub open spec fn rolls_chosen(picks: Seq<Choice>, n: nat) -> int
    decreases n,
{
    if n == 0 {
        0
    } else {
        rolls_chosen(picks, (n - 1) as nat) + times_rolled(picks[n - 1])
    }
}

/// The choices meet a plan: they are readings of their lines, as many as the
/// plan expects and of different stats, with rolls that can be shown as their
/// values and that add up to those of the plan.
pub open spec fn meets(
    plan: Plan,
    rarity: i32,
    lines: Seq<Seq<Reading>>,
    picks: Seq<Choice>,
) -> bool {
    let n = choices(picks, picks.len());
    &&& picks.len() == lines.len()
    &&& n == plan.expected
    &&& n >= 1
    &&& rolls_chosen(picks, picks.len()) == plan.rolls
    &&& forall|i: int|
        0 <= i < picks.len() ==> match #[trigger] picks[i] {
            Some((key, value, rolls)) => lines[i].contains((key, value)) && roll_counts(
                key,
                rarity,
                value,
                plan.rolls - (n - 1),
                8,
            ).contains(rolls),
            None => true,
        }
    &&& forall|i: int, j: int|
        0 <= i < j < picks.len() && (#[trigger] picks[i]) is Some && (#[trigger] picks[j]) is Some
            ==> stat_chosen(picks[i]) != stat_chosen(picks[j])
}

/// The level is tried: it was read, or it is a reading below 10 raised by 10.
pub open spec fn level_tried(levels: Seq<i32>, rarity: i32, x: i32) -> bool {
    levels.contains(x) || (10 <= x < 20 && x <= max_level_of(rarity) && levels.contains(
        (x - 10) as i32,
    ))
}

/// The plan belongs to a level that is tried.
pub open spec fn plan_tried(levels: Seq<i32>, rarity: i32, plan: Plan) -> bool {
    exists|x: i32| #[trigger]
        level_tried(levels, rarity, x) && plans_for_level(clamped(x, rarity), rarity).contains(plan)
}

/// Some choice among the readings meets a plan that is tried.
pub open spec fn solvable(rarity: i32, levels: Seq<i32>, lines: Seq<Seq<Reading>>) -> bool {
    4 <= rarity <= 5 && exists|plan: Plan, picks: Seq<Choice>| #[trigger]
        meets(plan, rarity, lines, picks) && plan_tried(levels, rarity, plan)
}

/// How many of the first `n` lines have a reading selected.
spec fn selected(sel: Seq<usize>, n: nat) -> int
    decreases n,
{
    if n == 0 {
        0
    } else {
        selected(sel, (n - 1) as nat) + if sel[n - 1] > 0 {
            1int
        } else {
            0int
        }
    }
}

proof fn lemma_selected_grows(sel: Seq<usize>, a: nat, b: nat)
    requires
        a <= b,
    ensures
        0 <= selected(sel, a) <= selected(sel, b),
    decreases b,
{
    if a < b {
        lemma_selected_grows(sel, a, (b - 1) as nat);
    } else if a > 0 {
        lemma_selected_grows(sel, (a - 1) as nat, (a - 1) as nat);
    }
}

proof fn lemma_selected_prefix(a: Seq<usize>, b: Seq<usize>, n: nat)
    requires
        n <= a.len(),
        n <= b.len(),
        forall|i: int| 0 <= i < n ==> a[i] == b[i],
    ensures
        selected(a, n) == selected(b, n),
    decreases n,
{
    if n > 0 {
        lemma_selected_prefix(a, b, (n - 1) as nat);
    }
}

/// Where the reading of a line stands among those that are chosen.
proof fn lemma_chosen(lines: Seq<Vec<OcrCandidate>>, sel: Seq<usize>)
    requires
        selectable(lines, sel),
    ensures
        chosen(lines, sel).len() == selected(sel, sel.len()),
        forall|i: int|
            0 <= i < sel.len() && #[trigger] sel[i] > 0 ==> 0 <= selected(sel, i as nat)
                < selected(sel, sel.len()) && chosen(lines, sel)[selected(sel, i as nat)]
                == lines[i]@[sel[i] - 1],
    decreases lines.len(),
{
    if lines.len() > 0 {
        let n = (lines.len() - 1) as nat;
        let l = lines.drop_last();
        let s = sel.drop_last();
        assert forall|i: int| 0 <= i < l.len() implies #[trigger] s[i] <= l[i]@.len() by {
            assert(sel[i] <= lines[i]@.len());
        }
        lemma_chosen(l, s);
        lemma_selected_prefix(s, sel, n);
        assert forall|i: int| 0 <= i < sel.len() && #[trigger] sel[i] > 0 implies 0 <= selected(
            sel,
            i as nat,
        ) < selected(sel, sel.len()) && chosen(lines, sel)[selected(sel, i as nat)]
            == lines[i]@[sel[i] - 1] by {
            lemma_selected_grows(sel, i as nat, n);
            lemma_selected_prefix(s, sel, i as nat);
            if i < n {
                assert(s[i] > 0);
                assert(l[i] == lines[i]);
            }
        }
    }
}

/// Each of the chosen readings stands on a line.
proof fn lemma_selected_at(sel: Seq<usize>, n: nat, k: int) -> (i: int)
    requires
        n <= sel.len(),
        0 <= k < selected(sel, n),
    ensures
        0 <= i < n,
        sel[i] > 0,
        selected(sel, i as nat) == k,
    decreases n,
{
    if k < selected(sel, (n - 1) as nat) {
        lemma_selected_at(sel, (n - 1) as nat, k)
    } else {
        n - 1
    }
}

proof fn lemma_sum_push(counts: Seq<i32>, x: i32)
    ensures
        sum_of(counts.push(x)) == sum_of(counts) + x,
    decreases counts.len(),
{
    let all = counts.push(x);
    if counts.len() == 0 {
        assert(all.skip(1) =~= Seq::<i32>::empty());
        assert(sum_of(all.skip(1)) == 0);
    } else {
        assert(all.skip(1) =~= counts.skip(1).push(x));
        lemma_sum_push(counts.skip(1), x);
    }
}

/// The choices of a selection with its rolls.
spec fn picks_of(lines: Seq<Vec<OcrCandidate>>, sel: Seq<usize>, rolls: Seq<i32>) -> Seq<Choice> {
    Seq::new(
        sel.len(),
        |i: int|
            if sel[i] == 0 {
                None
            } else {
                let c = lines[i]@[sel[i] - 1];
                Some((c.key@, c.value, rolls[selected(sel, i as nat)]))
            },
    )
}

proof fn lemma_picks_totals(
    lines: Seq<Vec<OcrCandidate>>,
    sel: Seq<usize>,
    rolls: Seq<i32>,
    n: nat,
)
    requires
        n <= sel.len(),
        selected(sel, n) <= rolls.len(),
    ensures
        choices(picks_of(lines, sel, rolls), n) == selected(sel, n),
        rolls_chosen(picks_of(lines, sel, rolls), n) == sum_of(rolls.take(selected(sel, n))),
    decreases n,
{
    lemma_selected_grows(sel, 0, n);
    if n > 0 {
        lemma_selected_grows(sel, (n - 1) as nat, n);
        lemma_picks_totals(lines, sel, rolls, (n - 1) as nat);
        let before = selected(sel, (n - 1) as nat);
        if sel[n - 1] > 0 {
            assert(rolls.take(before + 1) =~= rolls.take(before).push(rolls[before]));
            lemma_sum_push(rolls.take(before), rolls[before]);
        }
    } else {
        assert(rolls.take(0) =~= Seq::<i32>::empty());
    }
}

/// A selection that fits a plan gives choices that meet it.
proof fn lemma_fits_meets(
    plan: Plan,
    rarity: i32,
    lines: Seq<Vec<OcrCandidate>>,
    sel: Seq<usize>,
) -> (picks: Seq<Choice>)
    requires
        selectable(lines, sel),
        fits(plan, rarity, lines, sel),
    ensures
        meets(plan, rarity, readings(lines), picks),
{
    let subs = chosen(lines, sel);
    let rolls = plan_rolls(plan, rarity, subs)->0;
    let max_per = plan.rolls - (subs.len() - 1);
    let lists = counts_for(subs, rarity, max_per);
    assignment_is_sound(lists, plan.rolls as int);
    lemma_chosen(lines, sel);
    let picks = picks_of(lines, sel, rolls);
    lemma_picks_totals(lines, sel, rolls, sel.len());
    assert(rolls.take(selected(sel, sel.len())) =~= rolls);
    assert forall|i: int| 0 <= i < picks.len() implies match #[trigger] picks[i] {
        Some((key, value, r)) => readings(lines)[i].contains((key, value)) && roll_counts(
            key,
            rarity,
            value,
            max_per,
            8,
        ).contains(r),
        None => true,
    } by {
        assert(sel[i] <= lines[i]@.len());
        if sel[i] > 0 {
            let k = selected(sel, i as nat);
            assert(subs[k] == lines[i]@[sel[i] - 1]);
            assert(lists[k].contains(rolls[k]));
            let c = lines[i]@[sel[i] - 1];
            assert(readings(lines)[i][sel[i] - 1] == (c.key@, c.value));
        }
    }
    assert forall|i: int, j: int|
        0 <= i < j < picks.len() && (#[trigger] picks[i]) is Some && (
        #[trigger] picks[j]) is Some implies stat_chosen(picks[i]) != stat_chosen(picks[j]) by {
        assert(sel[i] > 0 && sel[j] > 0);
        lemma_selected_grows(sel, (i + 1) as nat, j as nat);
        assert(selected(sel, (i + 1) as nat) == selected(sel, i as nat) + 1);
        let a = subs[selected(sel, i as nat)];
        let b = subs[selected(sel, j as nat)];
        assert(a.key@ != b.key@);
    }
    picks
}

/// The rolls of the choices on the first `n` lines.
spec fn rolls_of(picks: Seq<Choice>, n: nat) -> Seq<i32>
    decreases n,
{
    if n == 0 {
        Seq::empty()
    } else {
        match picks[n - 1] {
            Some((_, _, rolls)) => rolls_of(picks, (n - 1) as nat).push(rolls),
            None => rolls_of(picks, (n - 1) as nat),
        }
    }
}

/// The choices as a selection.
spec fn selection_of(lines: Seq<Vec<OcrCandidate>>, picks: Seq<Choice>) -> Seq<usize> {
    Seq::new(
        picks.len(),
        |i: int|
            match picks[i] {
                Some((key, value, _)) => {
                    let k = choose|k: int|
                        0 <= k < lines[i]@.len() && (#[trigger] lines[i]@[k]).key@ == key
                            && lines[i]@[k].value == value;
                    (k + 1) as usize
                },
                None => 0,
            },
    )
}

proof fn lemma_rolls_of(picks: Seq<Choice>, sel: Seq<usize>, n: nat)
    requires
        n <= picks.len(),
        sel.len() == picks.len(),
        forall|i: int| 0 <= i < picks.len() ==> (#[trigger] sel[i] > 0 <==> picks[i] is Some),
    ensures
        selected(sel, n) == choices(picks, n),
        rolls_of(picks, n).len() == choices(picks, n),
        sum_of(rolls_of(picks, n)) == rolls_chosen(picks, n),
        forall|i: int|
            0 <= i < n && (#[trigger] picks[i]) is Some ==> 0 <= selected(sel, i as nat)
                < rolls_of(picks, n).len() && rolls_of(picks, n)[selected(sel, i as nat)]
                == times_rolled(picks[i]),
    decreases n,
{
    if n > 0 {
        lemma_rolls_of(picks, sel, (n - 1) as nat);
        let earlier = rolls_of(picks, (n - 1) as nat);
        assert(sel[n - 1] > 0 <==> picks[n - 1] is Some);
        if picks[n - 1] is Some {
            lemma_sum_push(earlier, times_rolled(picks[n - 1]));
        }
        assert forall|i: int| 0 <= i < n && (#[trigger] picks[i]) is Some implies 0 <= selected(
            sel,
            i as nat,
        ) < rolls_of(picks, n).len() && rolls_of(picks, n)[selected(sel, i as nat)]
            == times_rolled(picks[i]) by {
            lemma_selected_grows(sel, i as nat, (n - 1) as nat);
        }
    }
}

proof fn lemma_fits_usize(lines: Seq<Vec<OcrCandidate>>, i: int)
    requires
        0 <= i < lines.len(),
    ensures
        lines[i]@.len() <= usize::MAX,
{
    let v = lines[i];
    assert(v@.len() == v.len());
}

/// Choices that meet a plan give a selection that fits it.
proof fn lemma_meets_fits(
    plan: Plan,
    rarity: i32,
    lines: Seq<Vec<OcrCandidate>>,
    picks: Seq<Choice>,
) -> (sel: Seq<usize>)
    requires
        meets(plan, rarity, readings(lines), picks),
    ensures
        selectable(lines, sel),
        fits(plan, rarity, lines, sel),
{
    let sel = selection_of(lines, picks);
    let rolls = rolls_of(picks, picks.len());
    assert forall|i: int| 0 <= i < picks.len() implies (#[trigger] sel[i] > 0 <==> picks[i] is Some)
        && sel[i] <= lines[i]@.len() && (picks[i] matches Some((key, value, _))
        ==> lines[i]@[sel[i] - 1].key@ == key && lines[i]@[sel[i] - 1].value == value) by {
        match picks[i] {
            Some((key, value, _)) => {
                let list = readings(lines)[i];
                assert(list.contains((key, value)));
                let k = choose|k: int| 0 <= k < list.len() && list[k] == (key, value);
                assert(lines[i]@[k].key@ == key && lines[i]@[k].value == value);
                lemma_fits_usize(lines, i);
            },
            None => {},
        }
    }
    assert(selectable(lines, sel));
    lemma_chosen(lines, sel);
    lemma_rolls_of(picks, sel, picks.len());
    let subs = chosen(lines, sel);
    let n = picks.len();
    let max_per = plan.rolls - (subs.len() - 1);
    let lists = counts_for(subs, rarity, max_per);
    assert forall|k: int| 0 <= k < lists.len() implies lists[k].contains(#[trigger] rolls[k]) by {
        let i = lemma_selected_at(sel, n, k);
        assert(sel[i] > 0);
        assert(picks[i] is Some);
        assert(subs[k] == lines[i]@[sel[i] - 1]);
    }
    assert forall|a: int, b: int| 0 <= a < b < subs.len() implies (#[trigger] subs[a]).key@ != (
    #[trigger] subs[b]).key@ by {
        let i = lemma_selected_at(sel, n, a);
        let j = lemma_selected_at(sel, n, b);
        assert(sel[i] > 0 && sel[j] > 0);
        assert(picks[i] is Some && picks[j] is Some);
        assert(subs[a] == lines[i]@[sel[i] - 1]);
        assert(subs[b] == lines[j]@[sel[j] - 1]);
    }
    assert(is_assignment(lists, plan.rolls as int, rolls));
    assignment_is_complete(lists, plan.rolls as int, rolls);
    sel
}

/// The plans for some levels are those for each of them.
proof fn lemma_plans_for(levels: Seq<i32>, rarity: i32, plan: Plan)
    ensures
        plans_for(levels, rarity).contains(plan) <==> exists|x: i32| #[trigger]
            levels.contains(x) && plans_for_level(clamped(x, rarity), rarity).contains(plan),
    decreases levels.len(),
{
    if levels.len() > 0 {
        let rest = levels.drop_last();
        let last = levels.last();
        let earlier = plans_for(rest, rarity);
        let here = plans_for_level(clamped(last, rarity), rarity);
        let all = plans_for(levels, rarity);
        lemma_plans_for(rest, rarity, plan);
        assert(levels[levels.len() - 1] == last);
        if all.contains(plan) {
            let i = choose|i: int| 0 <= i < all.len() && all[i] == plan;
            if i < earlier.len() {
                assert(earlier[i] == plan);
                let x = choose|x: i32| #[trigger]
                    rest.contains(x) && plans_for_level(clamped(x, rarity), rarity).contains(plan);
                let k = choose|k: int| 0 <= k < rest.len() && rest[k] == x;
                assert(levels[k] == x);
                assert(levels.contains(x));
            } else {
                assert(here[i - earlier.len()] == plan);
                assert(here.contains(plan));
                assert(levels.contains(last));
            }
        }
        if exists|x: i32| #[trigger]
            levels.contains(x) && plans_for_level(clamped(x, rarity), rarity).contains(plan) {
            let x = choose|x: i32| #[trigger]
                levels.contains(x) && plans_for_level(clamped(x, rarity), rarity).contains(plan);
            let k = choose|k: int| 0 <= k < levels.len() && levels[k] == x;
            if k < rest.len() {
                assert(rest[k] == x);
                assert(rest.contains(x));
                assert(earlier.contains(plan));
                let i = choose|i: int| 0 <= i < earlier.len() && earlier[i] == plan;
                assert(all[i] == plan);
            } else {
                let i = choose|i: int| 0 <= i < here.len() && here[i] == plan;
                assert(all[earlier.len() + i] == plan);
            }
        }
    }
}

/// Which levels are raised.
proof fn lemma_raised(levels: Seq<i32>, rarity: i32, n: nat, x: i32)
    requires
        n <= levels.len(),
    ensures
        raised_levels(levels, rarity, n).contains(x) <==> exists|i: int|
            0 <= i < n && 0 <= #[trigger] levels[i] < 10 && x == levels[i] + 10 && x
                <= max_level_of(rarity) && !levels.contains(x),
    decreases n,
{
    if n > 0 {
        lemma_raised(levels, rarity, (n - 1) as nat, x);
        let earlier = raised_levels(levels, rarity, (n - 1) as nat);
        let all = raised_levels(levels, rarity, n);
        let l = levels[n - 1];
        if all.contains(x) {
            let k = choose|k: int| 0 <= k < all.len() && all[k] == x;
            if k < earlier.len() {
                assert(earlier[k] == x);
            }
        }
        if earlier.contains(x) {
            let k = choose|k: int| 0 <= k < earlier.len() && earlier[k] == x;
            assert(all[k] == x);
        }
        if 0 <= l < 10 && x == l + 10 && x <= max_level_of(rarity) && !levels.contains(x) {
            assert(all[all.len() - 1] == x);
        }
    }
}

/// A result for some plans shows that one of them is met.
proof fn lemma_solved_meets(
    levels: Seq<i32>,
    rarity: i32,
    lines: Seq<Vec<OcrCandidate>>,
    result: SolverResult,
) -> (r: (i32, Plan, Seq<Choice>))
    requires
        solved_by(plans_for(levels, rarity), rarity, lines, Some(result)),
    ensures
        levels.contains(r.0),
        plans_for_level(clamped(r.0, rarity), rarity).contains(r.1),
        meets(r.1, rarity, readings(lines), r.2),
{
    let plans = plans_for(levels, rarity);
    let (i, sel) = choose|i: int, sel: Seq<usize>|
        #![trigger plans[i], selectable(lines, sel)]
        0 <= i < plans.len() && first_fit(plans[i], rarity, lines, sel) && describes(
            result,
            plans[i],
            rarity,
            chosen(lines, sel),
        ) && forall|j: int| 0 <= j < i ==> no_fit(#[trigger] plans[j], rarity, lines);
    let picks = lemma_fits_meets(plans[i], rarity, lines, sel);
    assert(plans.contains(plans[i]));
    lemma_plans_for(levels, rarity, plans[i]);
    let x = choose|x: i32| #[trigger]
        levels.contains(x) && plans_for_level(clamped(x, rarity), rarity).contains(plans[i]);
    (x, plans[i], picks)
}

/// Without a result for some plans none of them is met.
proof fn lemma_unsolved(
    levels: Seq<i32>,
    rarity: i32,
    lines: Seq<Vec<OcrCandidate>>,
    x: i32,
    plan: Plan,
    picks: Seq<Choice>,
)
    requires
        solved_by(plans_for(levels, rarity), rarity, lines, None),
        levels.contains(x),
        plans_for_level(clamped(x, rarity), rarity).contains(plan),
    ensures
        !meets(plan, rarity, readings(lines), picks),
{
    if meets(plan, rarity, readings(lines), picks) {
        let sel = lemma_meets_fits(plan, rarity, lines, picks);
        lemma_plans_for(levels, rarity, plan);
        let plans = plans_for(levels, rarity);
        assert(plans.contains(plan));
        let i = choose|i: int| 0 <= i < plans.len() && plans[i] == plan;
        assert(no_fit(plans[i], rarity, lines));
    }
}

/// The solver finds a result exactly where some choice among the readings meets
/// a plan for a level that was read, or that was read without its tens digit.
pub proof fn solved_where_solvable(input: SolverInput, result: Option<SolverResult>)
    requires
        solution(input, result),
    ensures
        result is Some <==> solvable(
            input.rarity,
            input.level_candidates@,
            readings(input.substat_candidates@),
        ),
{
    let rarity = input.rarity;
    let all = input.level_candidates@;
    let lines = input.substat_candidates@;
    if 4 <= rarity <= 5 {
        let (levels, first) = choose|levels: Seq<i32>, first: Option<SolverResult>|
            {
                &&& #[trigger] ascending_set(levels, all)
                &&& #[trigger] solved_by(plans_for(levels, rarity), rarity, lines, first)
                &&& if in_doubt(first, lines.len()) {
                    exists|second: Option<SolverResult>| #[trigger]
                        solved_by(
                            plans_for(raised_levels(levels, rarity, levels.len()), rarity),
                            rarity,
                            lines,
                            second,
                        ) && result == better(first, second)
                } else {
                    result == first
                }
            };
        let raised = raised_levels(levels, rarity, levels.len());
        if let Some(r) = first {
            let (x, plan, picks) = lemma_solved_meets(levels, rarity, lines, r);
            assert(all.contains(x));
            assert(level_tried(all, rarity, x));
            assert(solvable(rarity, all, readings(lines)));
        } else {
            let second = choose|second: Option<SolverResult>| #[trigger]
                solved_by(plans_for(raised, rarity), rarity, lines, second) && result == better(
                    first,
                    second,
                );
            if let Some(r) = second {
                let (x, plan, picks) = lemma_solved_meets(raised, rarity, lines, r);
                lemma_raised(levels, rarity, levels.len(), x);
                let i = choose|i: int|
                    0 <= i < levels.len() && 0 <= #[trigger] levels[i] < 10 && x == levels[i] + 10
                        && x <= max_level_of(rarity) && !levels.contains(x);
                assert(levels.contains(levels[i]));
                assert(all.contains((x - 10) as i32));
                assert(level_tried(all, rarity, x));
                assert(solvable(rarity, all, readings(lines)));
            } else if solvable(rarity, all, readings(lines)) {
                let (plan, picks) = choose|plan: Plan, picks: Seq<Choice>| #[trigger]
                    meets(plan, rarity, readings(lines), picks) && plan_tried(all, rarity, plan);
                let x = choose|x: i32| #[trigger]
                    level_tried(all, rarity, x) && plans_for_level(
                        clamped(x, rarity),
                        rarity,
                    ).contains(plan);
                if all.contains(x) {
                    assert(levels.contains(x));
                    lemma_unsolved(levels, rarity, lines, x, plan, picks);
                } else {
                    let l = (x - 10) as i32;
                    assert(all.contains(l));
                    assert(levels.contains(l));
                    assert(!levels.contains(x));
                    let i = choose|i: int| 0 <= i < levels.len() && levels[i] == l;
                    lemma_raised(levels, rarity, levels.len(), x);
                    assert(0 <= levels[i] < 10);
                    assert(raised.contains(x));
                    lemma_unsolved(raised, rarity, lines, x, plan, picks);
                }
            }
        }
    }
}

/// Each line stands, with all its readings, at a place of its own among other
/// lines.
pub open spec fn placed(lines: Seq<Seq<Reading>>, more: Seq<Seq<Reading>>, at: Seq<int>) -> bool {
    &&& at.len() == lines.len()
    &&& forall|i: int| 0 <= i < at.len() ==> 0 <= #[trigger] at[i] < more.len()
    &&& forall|i: int, j: int| 0 <= i < j < at.len() ==> #[trigger] at[i] != #[trigger] at[j]
    &&& forall|i: int, r: Reading|
        0 <= i < lines.len() && #[trigger] lines[i].contains(r) ==> more[at[i]].contains(r)
}

/// The choices, moved to other places.
spec fn moved(picks: Seq<Choice>, at: Seq<int>, n: nat) -> Seq<Choice>
    decreases picks.len(),
{
    if picks.len() == 0 {
        Seq::new(n, |j: int| None)
    } else {
        moved(picks.drop_last(), at.drop_last(), n).update(at.last(), picks.last())
    }
}

proof fn lemma_none_chosen(picks: Seq<Choice>, n: nat)
    requires
        n <= picks.len(),
        forall|i: int| 0 <= i < n ==> (#[trigger] picks[i]) is None,
    ensures
        choices(picks, n) == 0,
        rolls_chosen(picks, n) == 0,
    decreases n,
{
    if n > 0 {
        lemma_none_chosen(picks, (n - 1) as nat);
    }
}

proof fn lemma_choose_one(picks: Seq<Choice>, j: int, choice: Choice, n: nat)
    requires
        0 <= j < picks.len(),
        n <= picks.len(),
        picks[j] is None,
    ensures
        choices(picks.update(j, choice), n) == choices(picks, n) + if j < n && choice is Some {
            1int
        } else {
            0int
        },
        rolls_chosen(picks.update(j, choice), n) == rolls_chosen(picks, n) + if j < n {
            times_rolled(choice) as int
        } else {
            0
        },
    decreases n,
{
    if n > 0 {
        lemma_choose_one(picks, j, choice, (n - 1) as nat);
    }
}

proof fn lemma_totals_prefix(a: Seq<Choice>, b: Seq<Choice>, n: nat)
    requires
        n <= a.len(),
        n <= b.len(),
        forall|i: int| 0 <= i < n ==> a[i] == b[i],
    ensures
        choices(a, n) == choices(b, n),
        rolls_chosen(a, n) == rolls_chosen(b, n),
    decreases n,
{
    if n > 0 {
        lemma_totals_prefix(a, b, (n - 1) as nat);
    }
}

proof fn lemma_moved(picks: Seq<Choice>, at: Seq<int>, n: nat)
    requires
        at.len() == picks.len(),
        forall|i: int| 0 <= i < at.len() ==> 0 <= #[trigger] at[i] < n,
        forall|i: int, j: int| 0 <= i < j < at.len() ==> #[trigger] at[i] != #[trigger] at[j],
    ensures
        moved(picks, at, n).len() == n,
        choices(moved(picks, at, n), n) == choices(picks, picks.len()),
        rolls_chosen(moved(picks, at, n), n) == rolls_chosen(picks, picks.len()),
        forall|j: int|
            0 <= j < n && (#[trigger] moved(picks, at, n)[j]) is Some ==> exists|i: int|
                0 <= i < picks.len() && #[trigger] at[i] == j && picks[i] == moved(picks, at, n)[j],
    decreases picks.len(),
{
    let all = moved(picks, at, n);
    if picks.len() == 0 {
        lemma_none_chosen(all, n);
    } else {
        let p = picks.drop_last();
        let a = at.drop_last();
        let m = (picks.len() - 1) as nat;
        assert forall|i: int| 0 <= i < a.len() implies 0 <= #[trigger] a[i] < n by {
            assert(a[i] == at[i]);
        }
        assert forall|i: int, j: int| 0 <= i < j < a.len() implies #[trigger] a[i]
            != #[trigger] a[j] by {
            assert(at[i] != at[j]);
        }
        lemma_moved(p, a, n);
        let rest = moved(p, a, n);
        let here = at.last();
        assert(here == at[m as int]);
        assert(rest[here] is None) by {
            if rest[here] is Some {
                let i = choose|i: int|
                    0 <= i < p.len() && #[trigger] a[i] == here && p[i] == rest[here];
                assert(at[i] != at[m as int]);
            }
        }
        lemma_choose_one(rest, here, picks.last(), n);
        lemma_totals_prefix(p, picks, m);
        assert forall|j: int| 0 <= j < n && (#[trigger] all[j]) is Some implies exists|i: int|
            0 <= i < picks.len() && #[trigger] at[i] == j && picks[i] == all[j] by {
            if j == here {
                assert(at[m as int] == j);
            } else {
                assert(rest[j] is Some);
                let i = choose|i: int| 0 <= i < p.len() && #[trigger] a[i] == j && p[i] == rest[j];
                assert(at[i] == j && picks[i] == p[i]);
            }
        }
    }
}

/// More readings of a line, more lines, lines in another order, and more
/// readings of the level never make readings unsolvable.
pub proof fn more_readings_stay_solvable(
    rarity: i32,
    levels: Seq<i32>,
    more_levels: Seq<i32>,
    lines: Seq<Seq<Reading>>,
    more: Seq<Seq<Reading>>,
    at: Seq<int>,
)
    requires
        solvable(rarity, levels, lines),
        forall|x: i32| #[trigger] levels.contains(x) ==> more_levels.contains(x),
        placed(lines, more, at),
    ensures
        solvable(rarity, more_levels, more),
{
    let (plan, picks) = choose|plan: Plan, picks: Seq<Choice>| #[trigger]
        meets(plan, rarity, lines, picks) && plan_tried(levels, rarity, plan);
    let x = choose|x: i32| #[trigger]
        level_tried(levels, rarity, x) && plans_for_level(clamped(x, rarity), rarity).contains(plan);
    assert(level_tried(more_levels, rarity, x));
    assert(plan_tried(more_levels, rarity, plan));
    let all = moved(picks, at, more.len());
    lemma_moved(picks, at, more.len());
    let n = choices(picks, picks.len());
    assert forall|j: int| 0 <= j < all.len() implies match #[trigger] all[j] {
        Some((key, value, rolls)) => more[j].contains((key, value)) && roll_counts(
            key,
            rarity,
            value,
            plan.rolls - (n - 1),
            8,
        ).contains(rolls),
        None => true,
    } by {
        if let Some((key, value, rolls)) = all[j] {
            let i = choose|i: int| 0 <= i < picks.len() && #[trigger] at[i] == j && picks[i] == all[j];
            assert(lines[i].contains((key, value)));
        }
    }
    assert forall|a: int, b: int|
        0 <= a < b < all.len() && (#[trigger] all[a]) is Some && (
        #[trigger] all[b]) is Some implies stat_chosen(all[a]) != stat_chosen(all[b]) by {
        let i = choose|i: int| 0 <= i < picks.len() && #[trigger] at[i] == a && picks[i] == all[a];
        let j = choose|j: int| 0 <= j < picks.len() && #[trigger] at[j] == b && picks[j] == all[b];
        assert(i != j);
        if i < j {
            assert(picks[i] is Some && picks[j] is Some);
        } else {
            assert(picks[j] is Some && picks[i] is Some);
        }
    }
    assert(meets(plan, rarity, more, all));
}

/// A solver that finds a result finds one too when it is given more readings of
/// a line, more lines, or more readings of the level.
pub proof fn more_readings_stay_solved(
    input: SolverInput,
    more: SolverInput,
    at: Seq<int>,
    result: SolverResult,
    found: Option<SolverResult>,
)
    requires
        solution(input, Some(result)),
        solution(more, found),
        more.rarity == input.rarity,
        forall|x: i32| #[trigger]
            input.level_candidates@.contains(x) ==> more.level_candidates@.contains(x),
        placed(readings(input.substat_candidates@), readings(more.substat_candidates@), at),
    ensures
        found is Some,
{
    solved_where_solvable(input, Some(result));
    solved_where_solvable(more, found);
    more_readings_stay_solvable(
        input.rarity,
        input.level_candidates@,
        more.level_candidates@,
        readings(input.substat_candidates@),
        readings(more.substat_candidates@),
        at,
    );
}

/// One line for each substat.
pub open spec fn single_lines(substats: Seq<Reading>) -> Seq<Seq<Reading>> {
    Seq::new(substats.len(), |i: int| seq![substats[i]])
}

/// Substats that were read in full are consistent with the roll rules.
pub open spec fn consistent(rarity: i32, level: i32, substats: Seq<Reading>) -> bool {
    substats.len() > 0 && solvable(rarity, seq![level], single_lines(substats))
}

/// The places hold each substat of the one list in the other.
pub open spec fn reordered(a: Seq<Reading>, b: Seq<Reading>, at: Seq<int>) -> bool {
    &&& a.len() == b.len() == at.len()
    &&& forall|i: int| 0 <= i < at.len() ==> 0 <= #[trigger] at[i] < b.len() && b[at[i]] == a[i]
    &&& forall|i: int, j: int| 0 <= i < j < at.len() ==> #[trigger] at[i] != #[trigger] at[j]
}

proof fn lemma_reordered(rarity: i32, level: i32, a: Seq<Reading>, b: Seq<Reading>, at: Seq<int>)
    requires
        reordered(a, b, at),
        consistent(rarity, level, a),
    ensures
        consistent(rarity, level, b),
{
    let lines = single_lines(a);
    let more = single_lines(b);
    assert forall|i: int, r: Reading|
        0 <= i < lines.len() && #[trigger] lines[i].contains(r) implies more[at[i]].contains(r) by {
        assert(at[i] == at[i]);
        assert(r == a[i]);
        assert(more[at[i]][0] == r);
    }
    more_readings_stay_solvable(rarity, seq![level], seq![level], lines, more, at);
}

/// The places of a list in which each place occurs once.
proof fn lemma_places(at: Seq<int>, j: int) -> (i: int)
    requires
        forall|i: int| 0 <= i < at.len() ==> 0 <= #[trigger] at[i] < at.len(),
        forall|i: int, k: int| 0 <= i < k < at.len() ==> #[trigger] at[i] != #[trigger] at[k],
        0 <= j < at.len(),
    ensures
        0 <= i < at.len(),
        at[i] == j,
{
    let all = vstd::set_lib::set_int_range(0, at.len() as int);
    vstd::set_lib::lemma_int_range(0, at.len() as int);
    assert(at.no_duplicates());
    at.unique_seq_to_set();
    assert(at.to_set().subset_of(all));
    vstd::set_lib::lemma_subset_equality(at.to_set(), all);
    assert(all.contains(j));
    assert(at.to_set().contains(j));
    choose|i: int| 0 <= i < at.len() && at[i] == j
}

/// Whether substats are consistent does not depend on their order.
pub proof fn order_does_not_matter(
    rarity: i32,
    level: i32,
    a: Seq<Reading>,
    b: Seq<Reading>,
    at: Seq<int>,
)
    requires
        reordered(a, b, at),
    ensures
        consistent(rarity, level, a) == consistent(rarity, level, b),
{
    if consistent(rarity, level, a) {
        lemma_reordered(rarity, level, a, b, at);
    }
    if consistent(rarity, level, b) {
        let back = Seq::new(at.len(), |j: int| choose|i: int| 0 <= i < at.len() && at[i] == j);
        assert forall|j: int| 0 <= j < back.len() implies 0 <= #[trigger] back[j] < a.len() && a[back[j]]
            == b[j] && at[back[j]] == j by {
            let i = lemma_places(at, j);
            assert(at[i] == j);
        }
        assert forall|j: int, k: int| 0 <= j < k < back.len() implies #[trigger] back[j]
            != #[trigger] back[k] by {
            assert(at[back[j]] == j && at[back[k]] == k);
        }
        lemma_reordered(rarity, level, b, a, back);
    }
}

} // verus!
