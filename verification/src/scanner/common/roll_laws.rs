//! What holds of rolls, of plans and of what the solver finds.
use crate::scanner::common::roll_solver::{
    ascending_set, better, chosen, clamped, describes, first_fit, in_doubt, inactive_count,
    initial_agreed, initial_tier, initial_value_of, max_level_of, near, no_fit, percent, plans_for,
    plans_for_level, possible_rolls, raised_levels, roll_counts, rolls_show, selectable, shown,
    solution, solved_by, split, split_sum, tiers_of, to_tenths, OcrCandidate, Plan, SolverInput,
    SolverResult,
};
use crate::scanner::common::solver_laws::{
    choices, consistent, level_tried, meets, plan_tried, rolls_chosen, single_lines, Choice,
    Reading,
};
use vstd::prelude::*;

verus! {

/// The highest roll of a substat on a five-star artifact, in hundredths.
pub open spec fn highest_roll(key: Seq<char>) -> int {
    if key == "hp"@ {
        29875
    } else if key == "atk"@ {
        1945
    } else if key == "def"@ {
        2315
    } else if key == "eleMas"@ {
        2331
    } else if key == "hp_"@ || key == "atk_"@ {
        583
    } else if key == "def_"@ {
        729
    } else if key == "enerRech_"@ {
        648
    } else if key == "critRate_"@ {
        389
    } else if key == "critDMG_"@ {
        777
    } else {
        0
    }
}

proof fn lemma_substat_keys()
    ensures
        "hp"@.len() == 2 && "hp"@[0] == 'h' && "hp"@.last() == 'p',
        "atk"@.len() == 3 && "atk"@[0] == 'a' && "atk"@.last() == 'k',
        "def"@.len() == 3 && "def"@[0] == 'd' && "def"@.last() == 'f',
        "eleMas"@.len() == 6 && "eleMas"@[0] == 'e' && "eleMas"@.last() == 's',
        "hp_"@.len() == 3 && "hp_"@[0] == 'h' && "hp_"@.last() == '_',
        "atk_"@.len() == 4 && "atk_"@[0] == 'a' && "atk_"@.last() == '_',
        "def_"@.len() == 4 && "def_"@[0] == 'd' && "def_"@.last() == '_',
        "enerRech_"@.len() == 9 && "enerRech_"@[0] == 'e' && "enerRech_"@.last() == '_',
        "critRate_"@.len() == 9 && "critRate_"@[0] == 'c' && "critRate_"@.last() == '_',
        "critDMG_"@.len() == 8 && "critDMG_"@[0] == 'c' && "critDMG_"@.last() == '_',
{
    reveal_strlit("hp");
    reveal_strlit("atk");
    reveal_strlit("def");
    reveal_strlit("eleMas");
    reveal_strlit("hp_");
    reveal_strlit("atk_");
    reveal_strlit("def_");
    reveal_strlit("enerRech_");
    reveal_strlit("critRate_");
    reveal_strlit("critDMG_");
}

/// Each roll is seven, eight, nine or ten tenths of the highest one, to the
/// nearest hundredth or the next; the highest one of a four-star artifact is four
/// fifths of that of a five-star artifact. There are ten substats.
pub proof fn rolls_are_shares_of_the_highest(key: Seq<char>, rarity: i32, i: int)
    requires
        4 <= rarity <= 5,
        0 <= i < 4,
    ensures
        tiers_of(key, rarity) is Some <==> highest_roll(key) > 0,
        tiers_of(key, rarity) matches Some(t) ==> {
            &&& t.len() == 4
            &&& -10 < 10 * t[i] - (7 + i) * t[3] < 10
            &&& rarity == 5 ==> t[3] == highest_roll(key)
            &&& rarity == 4 ==> -3 < 5 * t[3] - 4 * highest_roll(key) < 3
        },
{
    lemma_substat_keys();
    if let Some(t) = tiers_of(key, rarity) {
        assert(i == 0 || i == 1 || i == 2 || i == 3);
        assert(10 * t[0] - 7 * t[3] < 10 && 10 * t[0] - 7 * t[3] > -10);
        assert(10 * t[1] - 8 * t[3] < 10 && 10 * t[1] - 8 * t[3] > -10);
        assert(10 * t[2] - 9 * t[3] < 10 && 10 * t[2] - 9 * t[3] > -10);
    }
}

/// By how many tenths of a hundredth a roll of a five-star artifact is less than its
/// share of the highest one, at most: halves are rounded up, those of DEF down, and
/// rolls of energy recharge are cut off.
pub open spec fn least_off_five(key: Seq<char>) -> int {
    if key == "def"@ {
        -6
    } else if key == "enerRech_"@ {
        -10
    } else {
        -5
    }
}

/// By how many fiftieths of a hundredth a roll of a four-star artifact is less than
/// its share of the highest one, at most.
pub open spec fn least_off_four(key: Seq<char>) -> int {
    if key == "def_"@ {
        -30
    } else if key == "eleMas"@ {
        -15
    } else if key == "enerRech_"@ {
        -40
    } else if key == "critDMG_"@ {
        -20
    } else {
        -25
    }
}

/// Each roll is its share of the highest one in whole hundredths: seven, eight, nine
/// or ten tenths of it, and four fifths of that on a four-star artifact. Only one
/// number of hundredths is that near.
pub proof fn rolls_are_rounded_shares(key: Seq<char>, i: int)
    requires
        0 <= i < 4,
    ensures
        tiers_of(key, 5) matches Some(t) ==> least_off_five(key) < 10 * t[i] - (7 + i)
            * highest_roll(key) <= least_off_five(key) + 10,
        tiers_of(key, 4) matches Some(t) ==> least_off_four(key) < 50 * t[i] - 4 * ((7 + i)
            * highest_roll(key)) <= least_off_four(key) + 50,
{
    lemma_substat_keys();
    let h = highest_roll(key);
    assert(i == 0 || i == 1 || i == 2 || i == 3);
    assert((7 + 0) * h == 7 * h && (7 + 1) * h == 8 * h && (7 + 2) * h == 9 * h && (7 + 3) * h == 10
        * h);
    if let Some(t) = tiers_of(key, 5) {
        assert(least_off_five(key) < 10 * t[0] - 7 * h <= least_off_five(key) + 10);
        assert(least_off_five(key) < 10 * t[1] - 8 * h <= least_off_five(key) + 10);
        assert(least_off_five(key) < 10 * t[2] - 9 * h <= least_off_five(key) + 10);
        assert(least_off_five(key) < 10 * t[3] - 10 * h <= least_off_five(key) + 10);
    }
    if let Some(t) = tiers_of(key, 4) {
        assert(least_off_four(key) < 50 * t[0] - 28 * h <= least_off_four(key) + 50);
        assert(least_off_four(key) < 50 * t[1] - 32 * h <= least_off_four(key) + 50);
        assert(least_off_four(key) < 50 * t[2] - 36 * h <= least_off_four(key) + 50);
        assert(least_off_four(key) < 50 * t[3] - 40 * h <= least_off_four(key) + 50);
    }
}

/// A sum of rolls in hundredths is shown as a number of tenths: to the nearest
/// tenth for a percentage, to the nearest whole number for a flat stat, halves
/// rounded up.
pub open spec fn displayed(sum: int, tenths: int, pct: bool) -> bool {
    if pct {
        10 * tenths - 5 <= sum < 10 * tenths + 5
    } else {
        tenths % 10 == 0 && 10 * tenths - 50 <= sum < 10 * tenths + 50
    }
}

/// What is shown of a sum is its rounded value.
pub proof fn sums_are_rounded(sum: int, tenths: int, pct: bool)
    ensures
        shown(sum, pct) == tenths <==> displayed(sum, tenths, pct),
{
}

/// A value in millionths is nearest to this many tenths, halves away from zero.
pub open spec fn nearest_tenth(value: int, tenths: int) -> bool {
    if value >= 0 {
        100_000 * tenths - 50_000 <= value < 100_000 * tenths + 50_000
    } else {
        100_000 * tenths - 50_000 < value <= 100_000 * tenths + 50_000
    }
}

/// Some rolls, so many of each of the four kinds, add up to what is shown.
pub open spec fn rolls_add_up(
    tiers: Seq<u32>,
    n: int,
    a: int,
    b: int,
    c: int,
    d: int,
    tenths: int,
    pct: bool,
) -> bool {
    &&& a >= 0 && b >= 0 && c >= 0 && d >= 0
    &&& a + b + c + d == n
    &&& displayed(a * tiers[0] + b * tiers[1] + c * tiers[2] + d * tiers[3], tenths, pct)
}

/// The key ends in an underscore.
pub open spec fn ends_in_underscore(key: Seq<char>) -> bool {
    key.len() > 0 && key.last() == '_'
}

/// A value is possible with so many rolls exactly where one to eight rolls of the
/// substat add up to it when they are rounded; a key that ends in an underscore
/// is a percentage.
pub proof fn possible_rolls_add_up(key: Seq<char>, rarity: i32, value: i64, n: int, tenths: int)
    requires
        nearest_tenth(value as int, tenths),
    ensures
        possible_rolls(key, rarity, value, n) <==> 1 <= n <= 8 && tiers_of(key, rarity) is Some
            && exists|a: int, b: int, c: int, d: int| #[trigger]
            rolls_add_up(
                tiers_of(key, rarity)->0,
                n,
                a,
                b,
                c,
                d,
                tenths,
                ends_in_underscore(key),
            ),
{
    assert(to_tenths(value as int) == tenths);
    assert(percent(key) == ends_in_underscore(key));
    if tiers_of(key, rarity) is Some {
        let t = tiers_of(key, rarity)->0;
        lemma_rolls_show(t, n, tenths, percent(key));
        assert(possible_rolls(key, rarity, value, n) == (1 <= n <= 8 && rolls_show(
            t,
            0,
            n,
            tenths * 100_000,
            percent(key),
        )));
    }
}

proof fn lemma_rolls_show(t: Seq<u32>, n: int, tenths: int, pct: bool)
    ensures
        rolls_show(t, 0, n, tenths * 100_000, pct) <==> exists|a: int, b: int, c: int, d: int|
            #[trigger]
            rolls_add_up(t, n, a, b, c, d, tenths, pct),
{
    if exists|a: int, b: int, c: int, d: int| #[trigger]
        rolls_add_up(t, n, a, b, c, d, tenths, pct) {
        let (a, b, c, d) = choose|a: int, b: int, c: int, d: int| #[trigger]
            rolls_add_up(t, n, a, b, c, d, tenths, pct);
        sums_are_rounded(split_sum(t, a, b, c, d), tenths, pct);
        assert(split(n, a, b, c, d));
        assert(near(shown(0 + split_sum(t, a, b, c, d), pct), tenths * 100_000));
    }
    if rolls_show(t, 0, n, tenths * 100_000, pct) {
        let (a, b, c, d) = choose|a: int, b: int, c: int, d: int| #[trigger]
            split(n, a, b, c, d) && near(
                shown(0 + split_sum(t, a, b, c, d), pct),
                tenths * 100_000,
            );
        sums_are_rounded(split_sum(t, a, b, c, d), tenths, pct);
        assert(rolls_add_up(t, n, a, b, c, d, tenths, pct));
    }
}

/// The initial value of a substat can itself be shown after one roll, and after
/// one roll the shown value is the initial one.
pub proof fn initial_values_take_one_roll(key: Seq<char>, rarity: i32, value: i64, n: int)
    requires
        4 <= rarity <= 5,
    ensures
        initial_value_of(key, rarity, value, n) matches Some(v) ==> possible_rolls(
            key,
            rarity,
            v,
            1,
        ),
        value as int % 100_000 == 0 && possible_rolls(key, rarity, value, 1) ==> initial_value_of(
            key,
            rarity,
            value,
            1,
        ) == Some(value),
{
    if let Some(t) = tiers_of(key, rarity) {
        let pct = percent(key);
        rolls_are_shares_of_the_highest(key, rarity, 0);
        assert(t[0] <= 30_000 && t[1] <= 30_000 && t[2] <= 30_000 && t[3] <= 30_000) by {
            lemma_substat_keys();
        }
        if initial_value_of(key, rarity, value, n) is Some {
            let x = choose|x: int| initial_agreed(t, n, value as int, pct, x);
            assert(initial_agreed(t, n, value as int, pct, x));
            let k = choose|k: int| initial_tier(t, k, n, value as int, pct);
            assert(initial_tier(t, k, n, value as int, pct));
            lemma_one_roll(key, rarity, t, k);
        }
        if value as int % 100_000 == 0 && possible_rolls(key, rarity, value, 1) {
            let x = value as int / 100_000;
            assert(nearest_tenth(value as int, x));
            assert(to_tenths(value as int) == x);
            lemma_rolls_show(t, 1, x, pct);
            lemma_agreed_after_one(t, x, pct);
            let y = choose|y: int| initial_agreed(t, 1, value as int, pct, y);
            assert(initial_agreed(t, 1, value as int, pct, x));
            assert(initial_agreed(t, 1, value as int, pct, y));
            let k = choose|k: int| initial_tier(t, k, 1, value as int, pct);
            assert(initial_tier(t, k, 1, value as int, pct));
            assert(y == x);
        }
    }
}

proof fn lemma_single(t: Seq<u32>, a: int, b: int, c: int, d: int, k: int)
    requires
        a + b + c + d == 1,
        0 <= a && 0 <= b && 0 <= c && 0 <= d,
        k == if a == 1 {
            0int
        } else if b == 1 {
            1
        } else if c == 1 {
            2
        } else {
            3
        },
    ensures
        split_sum(t, a, b, c, d) == t[k],
{
    let (p, q, r, s) = (t[0] as int, t[1] as int, t[2] as int, t[3] as int);
    assert(0 * p == 0 && 0 * q == 0 && 0 * r == 0 && 0 * s == 0);
    assert(1 * p == p && 1 * q == q && 1 * r == r && 1 * s == s);
    if a == 1 {
        assert(b == 0 && c == 0 && d == 0);
    } else if b == 1 {
        assert(a == 0 && c == 0 && d == 0);
    } else if c == 1 {
        assert(a == 0 && b == 0 && d == 0);
    } else {
        assert(a == 0 && b == 0 && c == 0 && d == 1);
    }
}

proof fn lemma_agreed_after_one(t: Seq<u32>, x: int, pct: bool)
    requires
        exists|a: int, b: int, c: int, d: int| #[trigger] rolls_add_up(t, 1, a, b, c, d, x, pct),
    ensures
        initial_agreed(t, 1, x * 100_000, pct, x),
{
    let (a, b, c, d) = choose|a: int, b: int, c: int, d: int| #[trigger]
        rolls_add_up(t, 1, a, b, c, d, x, pct);
    let k = if a == 1 {
        0int
    } else if b == 1 {
        1
    } else if c == 1 {
        2
    } else {
        3
    };
    lemma_single(t, a, b, c, d, k);
    sums_are_rounded(t[k] as int, x, pct);
    assert(split_sum(t, 0, 0, 0, 0) == 0) by {
        assert(0 * t[0] == 0 && 0 * t[1] == 0 && 0 * t[2] == 0 && 0 * t[3] == 0);
    }
    assert(split(0, 0, 0, 0, 0) && near(shown(t[k] + split_sum(t, 0, 0, 0, 0), pct), x * 100_000));
    assert(initial_tier(t, k, 1, x * 100_000, pct));
    assert forall|m: int| #[trigger] initial_tier(t, m, 1, x * 100_000, pct) implies shown(
        t[m] as int,
        pct,
    ) == x by {
        let (a, b, c, d) = choose|a: int, b: int, c: int, d: int| #[trigger]
            split(0, a, b, c, d) && near(shown(t[m] + split_sum(t, a, b, c, d), pct), x * 100_000);
        assert(a == 0 && b == 0 && c == 0 && d == 0);
    }
}

proof fn lemma_one_roll(key: Seq<char>, rarity: i32, t: Seq<u32>, k: int)
    requires
        tiers_of(key, rarity) == Some(t),
        0 <= k < 4,
        t[k] <= 30_000,
    ensures
        possible_rolls(key, rarity, (shown(t[k] as int, percent(key)) * 100_000) as i64, 1),
{
    let pct = percent(key);
    let x = shown(t[k] as int, pct);
    let value = (x * 100_000) as i64;
    assert(to_tenths(value as int) == x);
    lemma_one_roll_shows(t, k, pct);
    lemma_rolls_show(t, 1, x, pct);
}

proof fn lemma_one_roll_shows(t: Seq<u32>, k: int, pct: bool)
    requires
        0 <= k < 4,
    ensures
        exists|a: int, b: int, c: int, d: int| #[trigger]
            rolls_add_up(t, 1, a, b, c, d, shown(t[k] as int, pct), pct),
{
    let x = shown(t[k] as int, pct);
    sums_are_rounded(t[k] as int, x, pct);
    let a = if k == 0 {
        1int
    } else {
        0
    };
    let b = if k == 1 {
        1int
    } else {
        0
    };
    let c = if k == 2 {
        1int
    } else {
        0
    };
    let d = if k == 3 {
        1int
    } else {
        0
    };
    lemma_single(t, a, b, c, d, k);
    assert(rolls_add_up(t, 1, a, b, c, d, x, pct));
}

/// The smaller of four and a number.
pub open spec fn up_to_four(n: int) -> int {
    if n < 4 {
        n
    } else {
        4
    }
}

/// An artifact of a rarity can start with so many substats: three or four of a
/// five-star artifact, two or three of a four-star one.
pub open spec fn possible_start(rarity: i32, init: int) -> bool {
    (rarity == 5 && (init == 3 || init == 4)) || (rarity == 4 && (init == 2 || init == 3))
}

/// What the game allows of an artifact: it starts with so many substats, each of
/// them rolled once, and takes one roll every four levels; such a roll adds a
/// substat until there are four. At level 0 the substat that the first upgrade
/// will activate may be shown already.
pub open spec fn roll_rules(plan: Plan, rarity: i32) -> bool {
    &&& possible_start(rarity, plan.init as int)
    &&& if plan.level > 0 {
        &&& plan.expected == up_to_four(plan.init + plan.level as int / 4)
        &&& plan.rolls == plan.init + plan.level as int / 4
    } else {
        &&& plan.rolls == plan.expected
        &&& plan.expected == plan.init || (plan.expected == plan.init + 1 && plan.init == rarity
            - 2)
    }
}

/// The plans of a level are those that the rules allow, and no others.
pub proof fn plans_follow_the_rules(level: i32, rarity: i32, plan: Plan)
    requires
        4 <= rarity <= 5,
        0 <= level <= 20,
    ensures
        plans_for_level(level, rarity).contains(plan) <==> plan.level == level && roll_rules(
            plan,
            rarity,
        ),
{
    let plans = plans_for_level(level, rarity);
    if level > 0 {
        assert(plans.len() == 2);
        if plan.level == level && roll_rules(plan, rarity) {
            assert(plans[0] == plan || plans[1] == plan);
        }
    } else {
        assert(plans.len() == 3);
        if plan.level == level && roll_rules(plan, rarity) {
            assert(plans[0] == plan || plans[1] == plan || plans[2] == plan);
        }
    }
}

/// Above level 0 the smaller start is tried first; at level 0 the larger one is,
/// and then the smaller one with the substat that is not yet activated.
pub proof fn starts_are_tried_in_order(level: i32, rarity: i32)
    requires
        4 <= rarity <= 5,
        0 <= level <= 20,
    ensures
        ({
            let plans = plans_for_level(level, rarity);
            if level > 0 {
                plans.len() == 2 && plans[0].init == rarity - 2 && plans[1].init == rarity - 1
            } else {
                &&& plans.len() == 3
                &&& plans[0].init == rarity - 1 && plans[0].expected == rarity - 1
                &&& plans[1].init == rarity - 2 && plans[1].expected == rarity - 1
                &&& plans[2].init == rarity - 2 && plans[2].expected == rarity - 2
            }
        }),
{
}

/// A level is brought into the range of the rarity: up to 20 for five stars, up
/// to 16 for four; a level in the range stays.
pub proof fn levels_are_brought_into_range(level: i32, rarity: i32)
    requires
        4 <= rarity <= 5,
    ensures
        max_level_of(rarity) == 4 * rarity,
        0 <= clamped(level, rarity) <= 4 * rarity,
        0 <= level <= 4 * rarity ==> clamped(level, rarity) == level,
        level < 0 ==> clamped(level, rarity) == 0,
        level > 4 * rarity ==> clamped(level, rarity) == 4 * rarity,
{
}

/// The substats are of different stats, and each can have taken its rolls.
pub open spec fn rolls_explain(rarity: i32, substats: Seq<Reading>, rolls: Seq<i32>) -> bool {
    &&& rolls.len() == substats.len()
    &&& forall|i: int|
        0 <= i < substats.len() ==> possible_rolls(
            (#[trigger] substats[i]).0,
            rarity,
            substats[i].1,
            rolls[i] as int,
        )
    &&& forall|i: int, j: int|
        0 <= i < j < substats.len() ==> (#[trigger] substats[i]).0 != (#[trigger] substats[j]).0
}

/// The sum of the first `n` numbers.
pub open spec fn total_of(rolls: Seq<i32>, n: nat) -> int
    decreases n,
{
    if n == 0 {
        0
    } else {
        total_of(rolls, (n - 1) as nat) + rolls[n - 1]
    }
}

proof fn lemma_roll_counted(
    key: Seq<char>,
    rarity: i32,
    value: i64,
    max_per: int,
    limit: nat,
    n: int,
)
    requires
        1 <= n <= limit <= 8,
        n <= max_per,
        possible_rolls(key, rarity, value, n),
    ensures
        roll_counts(key, rarity, value, max_per, limit).contains(n as i32),
    decreases limit,
{
    let all = roll_counts(key, rarity, value, max_per, limit);
    if n == limit {
        assert(all.last() == n as i32);
    } else {
        lemma_roll_counted(key, rarity, value, max_per, (limit - 1) as nat, n);
        let fewer = roll_counts(key, rarity, value, max_per, (limit - 1) as nat);
        let k = choose|k: int| 0 <= k < fewer.len() && fewer[k] == n as i32;
        assert(all[k] == n as i32);
    }
}

proof fn lemma_total_bound(rolls: Seq<i32>, n: nat, k: int)
    requires
        n <= rolls.len(),
        0 <= k < n,
        forall|i: int| 0 <= i < rolls.len() ==> #[trigger] rolls[i] >= 1,
    ensures
        rolls[k] <= total_of(rolls, n) - (n - 1),
        total_of(rolls, n) >= n,
    decreases n,
{
    if n > 1 {
        if k < n - 1 {
            lemma_total_bound(rolls, (n - 1) as nat, k);
            assert(rolls[n - 1] >= 1);
        } else {
            lemma_total_bound(rolls, (n - 1) as nat, 0);
        }
    } else {
        assert(total_of(rolls, 1) == total_of(rolls, 0) + rolls[0]);
        assert(rolls[0] >= 1);
    }
}

proof fn lemma_all_chosen(picks: Seq<Choice>, rolls: Seq<i32>, n: nat)
    requires
        n <= picks.len(),
        picks.len() == rolls.len(),
        forall|i: int|
            0 <= i < picks.len() ==> (#[trigger] picks[i] matches Some((_, _, r)) && r == rolls[i]),
    ensures
        choices(picks, n) == n,
        rolls_chosen(picks, n) == total_of(rolls, n),
    decreases n,
{
    if n > 0 {
        lemma_all_chosen(picks, rolls, (n - 1) as nat);
        assert(picks[n - 1] is Some);
    }
}

/// Substats whose rolls follow the rules are consistent: so many of them as the
/// start and the upgrades give, with one roll for each initial substat and one
/// for each upgrade.
pub proof fn allowed_rolls_are_consistent(
    rarity: i32,
    level: i32,
    substats: Seq<Reading>,
    rolls: Seq<i32>,
    init: i32,
)
    requires
        4 <= rarity <= 5,
        0 <= level <= 4 * rarity,
        possible_start(rarity, init as int),
        rolls_explain(rarity, substats, rolls),
        total_of(rolls, rolls.len()) == init + level as int / 4,
        substats.len() == up_to_four(init + level as int / 4),
    ensures
        consistent(rarity, level, substats),
{
    let n = substats.len();
    let plan = Plan {
        level,
        init,
        expected: n as i32,
        rolls: (init + level as int / 4) as i32,
    };
    plans_follow_the_rules(level, rarity, plan);
    let picks = Seq::new(n, |i: int| Some((substats[i].0, substats[i].1, rolls[i])));
    let lines = single_lines(substats);
    assert forall|i: int| 0 <= i < rolls.len() implies #[trigger] rolls[i] >= 1 by {
        assert(possible_rolls(substats[i].0, rarity, substats[i].1, rolls[i] as int));
    }
    lemma_all_chosen(picks, rolls, n);
    assert forall|i: int| 0 <= i < picks.len() implies match #[trigger] picks[i] {
        Some((key, value, r)) => lines[i].contains((key, value)) && roll_counts(
            key,
            rarity,
            value,
            plan.rolls - (n - 1),
            8,
        ).contains(r),
        None => true,
    } by {
        assert(lines[i][0] == substats[i]);
        assert(possible_rolls(substats[i].0, rarity, substats[i].1, rolls[i] as int));
        lemma_total_bound(rolls, n, i);
        lemma_roll_counted(
            substats[i].0,
            rarity,
            substats[i].1,
            plan.rolls - (n - 1),
            8,
            rolls[i] as int,
        );
    }
    assert(meets(plan, rarity, lines, picks));
    assert(seq![level].contains(level)) by {
        assert(seq![level][0] == level);
    }
    assert(level_tried(seq![level], rarity, level));
    levels_are_brought_into_range(level, rarity);
    assert(plan_tried(seq![level], rarity, plan));
}

/// Consistent substats have some among them whose rolls follow the rules, for the
/// level or for the level with a lost digit one in front.
pub proof fn consistent_substats_follow_the_rules(rarity: i32, level: i32, substats: Seq<Reading>)
    requires
        consistent(rarity, level, substats),
        0 <= level <= 4 * rarity,
    ensures
        4 <= rarity <= 5,
        exists|plan: Plan, picks: Seq<Choice>| #[trigger]
            meets(plan, rarity, single_lines(substats), picks) && roll_rules(plan, rarity) && (
            plan.level == level || (plan.level == level + 10 && level < 10)),
{
    let (plan, picks) = choose|plan: Plan, picks: Seq<Choice>| #[trigger]
        meets(plan, rarity, single_lines(substats), picks) && plan_tried(
            seq![level],
            rarity,
            plan,
        );
    let x = choose|x: i32| #[trigger]
        level_tried(seq![level], rarity, x) && plans_for_level(clamped(x, rarity), rarity).contains(
            plan,
        );
    levels_are_brought_into_range(x, rarity);
    plans_follow_the_rules(clamped(x, rarity), rarity, plan);
    assert(x == level || (x - 10) as i32 == level);
    assert(meets(plan, rarity, single_lines(substats), picks) && roll_rules(plan, rarity));
}

proof fn lemma_planned(levels: Seq<i32>, rarity: i32, i: int) -> (x: i32)
    requires
        0 <= i < plans_for(levels, rarity).len(),
    ensures
        levels.contains(x),
        plans_for_level(clamped(x, rarity), rarity).contains(plans_for(levels, rarity)[i]),
    decreases levels.len(),
{
    let rest = levels.drop_last();
    let earlier = plans_for(rest, rarity);
    if i < earlier.len() {
        let x = lemma_planned(rest, rarity, i);
        let k = choose|k: int| 0 <= k < rest.len() && rest[k] == x;
        assert(levels[k] == x);
        x
    } else {
        let x = levels.last();
        assert(levels[levels.len() - 1] == x);
        let here = plans_for_level(clamped(x, rarity), rarity);
        assert(here[i - earlier.len()] == plans_for(levels, rarity)[i]);
        x
    }
}

proof fn lemma_result_plan(
    levels: Seq<i32>,
    rarity: i32,
    lines: Seq<Vec<OcrCandidate>>,
    result: SolverResult,
) -> (r: (i32, Plan, Seq<OcrCandidate>))
    requires
        4 <= rarity <= 5,
        solved_by(plans_for(levels, rarity), rarity, lines, Some(result)),
    ensures
        levels.contains(r.0),
        r.1.level == clamped(r.0, rarity),
        roll_rules(r.1, rarity),
        r.2.len() == r.1.expected,
        describes(result, r.1, rarity, r.2),
{
    let plans = plans_for(levels, rarity);
    let (i, sel) = choose|i: int, sel: Seq<usize>|
        #![trigger plans[i], selectable(lines, sel)]
        0 <= i < plans.len() && first_fit(plans[i], rarity, lines, sel) && describes(
            result,
            plans[i],
            rarity,
            chosen(lines, sel),
        ) && forall|j: int| 0 <= j < i ==> no_fit(#[trigger] plans[j], rarity, lines);
    let x = lemma_planned(levels, rarity, i);
    levels_are_brought_into_range(x, rarity);
    plans_follow_the_rules(clamped(x, rarity), rarity, plans[i]);
    (x, plans[i], chosen(lines, sel))
}

/// How many of the first `n` substats of a result are not yet activated.
pub open spec fn not_yet_active(result: SolverResult, n: nat) -> int
    decreases n,
{
    if n == 0 {
        0
    } else {
        not_yet_active(result, (n - 1) as nat) + if result.substats@[n - 1].inactive {
            1int
        } else {
            0int
        }
    }
}

proof fn lemma_inactive(result: SolverResult, subs: Seq<OcrCandidate>, n: nat)
    requires
        n <= subs.len(),
        subs.len() == result.substats@.len(),
        forall|i: int|
            0 <= i < subs.len() ==> (#[trigger] result.substats@[i]).inactive == subs[i].inactive,
    ensures
        inactive_count(subs.take(n as int)) == not_yet_active(result, n),
    decreases n,
{
    if n > 0 {
        lemma_inactive(result, subs, (n - 1) as nat);
        assert(subs.take(n as int).drop_last() =~= subs.take(n - 1));
        assert(result.substats@[n - 1].inactive == subs[n - 1].inactive);
    }
}

/// What holds of a result for a level that is tried.
pub open spec fn counted(result: SolverResult, rarity: i32) -> bool {
    let n = result.substats@.len() as int;
    &&& result.total_rolls == result.initial_substat_count + result.level as int / 4
    &&& if result.level > 0 {
        &&& possible_start(rarity, result.initial_substat_count as int)
        &&& n == up_to_four(result.total_rolls as int)
    } else {
        let active = n - not_yet_active(result, n as nat);
        &&& n == rarity - 2 || n == rarity - 1
        &&& result.initial_substat_count == if active < 1 {
            1
        } else {
            active
        }
    }
}

/// Whatever the solver finds: its rolls are those of the start and one for every
/// four levels, it has as many substats as these give, up to four, and at level 0
/// the start is what is active of them. Its level was read, or it was read
/// without the digit one in front of it; a level outside the range stands for the
/// end of the range.
pub proof fn solved_artifacts_count_their_rolls(input: SolverInput, result: SolverResult)
    requires
        solution(input, Some(result)),
    ensures
        counted(result, input.rarity),
        exists|x: i32| #[trigger]
            input.level_candidates@.contains(x) && (result.level == clamped(x, input.rarity) || (0
                <= x < 10 && result.level == x + 10)),
{
    let lines = input.substat_candidates@;
    let rarity = input.rarity;
    let all = input.level_candidates@;
    let (levels, first) = choose|levels: Seq<i32>, first: Option<SolverResult>|
        {
            &&& #[trigger] ascending_set(levels, all)
            &&& #[trigger] solved_by(plans_for(levels, rarity), rarity, lines, first)
            &&& if in_doubt(first, lines.len()) {
                exists|second: Option<SolverResult>| #[trigger]
                    solved_by(
                        plans_for(raised_levels(levels, rarity, levels.len()), rarity),
                        rarity,
                        lines,
                        second,
                    ) && Some(result) == better(first, second)
            } else {
                Some(result) == first
            }
        };
    let tried = if first == Some(result) {
        levels
    } else {
        raised_levels(levels, rarity, levels.len())
    };
    let (x, plan, subs) = lemma_result_plan(tried, rarity, lines, result);
    lemma_inactive(result, subs, subs.len());
    assert(subs.take(subs.len() as int) =~= subs);
    levels_are_brought_into_range(x, rarity);
    if first == Some(result) {
        assert(levels.contains(x));
        assert(all.contains(x));
    } else {
        let l = lemma_raised_from(levels, rarity, levels.len(), x);
        assert(all.contains(l));
    }
}

proof fn lemma_raised_from(levels: Seq<i32>, rarity: i32, n: nat, x: i32) -> (l: i32)
    requires
        n <= levels.len(),
        4 <= rarity <= 5,
        raised_levels(levels, rarity, n).contains(x),
    ensures
        levels.contains(l),
        0 <= l < 10,
        x == l + 10,
        x <= 4 * rarity,
        !levels.contains(x),
    decreases n,
{
    let here = raised_levels(levels, rarity, n);
    let k = choose|k: int| 0 <= k < here.len() && here[k] == x;
    if n > 0 {
        let earlier = raised_levels(levels, rarity, (n - 1) as nat);
        if k < earlier.len() {
            assert(earlier[k] == x);
            lemma_raised_from(levels, rarity, (n - 1) as nat, x)
        } else {
            assert(levels[n - 1] == levels[n - 1]);
            levels[n - 1]
        }
    } else {
        0
    }
}

proof fn lemma_plan_at(levels: Seq<i32>, rarity: i32, q: int, plan: Plan) -> (j: int)
    requires
        0 <= q < levels.len(),
        plans_for_level(clamped(levels[q], rarity), rarity).contains(plan),
    ensures
        0 <= j < plans_for(levels, rarity).len(),
        plans_for(levels, rarity)[j] == plan,
    decreases levels.len(),
{
    let earlier = plans_for(levels.drop_last(), rarity);
    if q < levels.len() - 1 {
        let j = lemma_plan_at(levels.drop_last(), rarity, q, plan);
        assert(plans_for(levels, rarity)[j] == earlier[j]);
        j
    } else {
        let here = plans_for_level(clamped(levels.last(), rarity), rarity);
        let k = choose|k: int| 0 <= k < here.len() && here[k] == plan;
        assert(plans_for(levels, rarity)[earlier.len() + k] == plan);
        earlier.len() + k
    }
}

proof fn lemma_planned_in_order(levels: Seq<i32>, rarity: i32, i: int, q: int, plan: Plan) -> (r: (
    int,
    int,
))
    requires
        0 <= i < plans_for(levels, rarity).len(),
        0 <= q < levels.len(),
        plans_for_level(clamped(levels[q], rarity), rarity).contains(plan),
    ensures
        0 <= r.0 < levels.len(),
        plans_for_level(clamped(levels[r.0], rarity), rarity).contains(
            plans_for(levels, rarity)[i],
        ),
        q < r.0 ==> 0 <= r.1 < i && plans_for(levels, rarity)[r.1] == plan,
    decreases levels.len(),
{
    let rest = levels.drop_last();
    let earlier = plans_for(rest, rarity);
    let last = levels.len() - 1;
    if i < earlier.len() {
        assert(plans_for(levels, rarity)[i] == earlier[i]);
        if q < last {
            let r = lemma_planned_in_order(rest, rarity, i, q, plan);
            assert(r.0 < rest.len());
            if q < r.0 {
                assert(plans_for(levels, rarity)[r.1] == earlier[r.1]);
            }
            r
        } else {
            let x = lemma_planned(rest, rarity, i);
            let k = choose|k: int| 0 <= k < rest.len() && rest[k] == x;
            assert(levels[k] == x);
            (k, 0)
        }
    } else {
        let here = plans_for_level(clamped(levels.last(), rarity), rarity);
        assert(here[i - earlier.len()] == plans_for(levels, rarity)[i]);
        if q < last {
            let j = lemma_plan_at(rest, rarity, q, plan);
            assert(plans_for(levels, rarity)[j] == earlier[j]);
            (last, j)
        } else {
            (last, 0)
        }
    }
}

/// Lower levels are tried first: where the solver finds a level below ten, the
/// readings meet no plan of any lower level that was read.
pub proof fn lower_levels_come_first(input: SolverInput, result: SolverResult, y: i32, plan: Plan)
    requires
        solution(input, Some(result)),
        result.level < 10,
        input.level_candidates@.contains(y),
        plan.level == clamped(y, input.rarity),
        plan.level < result.level,
        roll_rules(plan, input.rarity),
    ensures
        no_fit(plan, input.rarity, input.substat_candidates@),
{
    let lines = input.substat_candidates@;
    let rarity = input.rarity;
    let all = input.level_candidates@;
    let (levels, first) = choose|levels: Seq<i32>, first: Option<SolverResult>|
        {
            &&& #[trigger] ascending_set(levels, all)
            &&& #[trigger] solved_by(plans_for(levels, rarity), rarity, lines, first)
            &&& if in_doubt(first, lines.len()) {
                exists|second: Option<SolverResult>| #[trigger]
                    solved_by(
                        plans_for(raised_levels(levels, rarity, levels.len()), rarity),
                        rarity,
                        lines,
                        second,
                    ) && Some(result) == better(first, second)
            } else {
                Some(result) == first
            }
        };
    if first != Some(result) {
        let raised = raised_levels(levels, rarity, levels.len());
        let (x, p, subs) = lemma_result_plan(raised, rarity, lines, result);
        let l = lemma_raised_from(levels, rarity, levels.len(), x);
        levels_are_brought_into_range(x, rarity);
        assert(false);
    }
    let plans = plans_for(levels, rarity);
    let (i, sel) = choose|i: int, sel: Seq<usize>|
        #![trigger plans[i], selectable(lines, sel)]
        0 <= i < plans.len() && first_fit(plans[i], rarity, lines, sel) && describes(
            result,
            plans[i],
            rarity,
            chosen(lines, sel),
        ) && forall|j: int| 0 <= j < i ==> no_fit(#[trigger] plans[j], rarity, lines);
    assert(levels.contains(y));
    let q = choose|q: int| 0 <= q < levels.len() && levels[q] == y;
    levels_are_brought_into_range(y, rarity);
    plans_follow_the_rules(clamped(y, rarity), rarity, plan);
    let r = lemma_planned_in_order(levels, rarity, i, q, plan);
    let x = levels[r.0];
    levels_are_brought_into_range(x, rarity);
    plans_follow_the_rules(clamped(x, rarity), rarity, plans[i]);
    assert(clamped(y, rarity) < clamped(x, rarity));
    assert(q < r.0) by {
        if r.0 <= q {
            assert(levels[r.0] <= levels[q]);
        }
    }
    assert(no_fit(plans[r.1], rarity, lines));
}

/// A result is doubted where there is none, and where it leaves lines out at a level
/// of one digit: its first digit may have been lost.
pub proof fn levels_of_one_digit_are_doubted(r: SolverResult, lines: nat)
    ensures
        in_doubt(None, lines),
        r.level >= 10 ==> !in_doubt(Some(r), lines),
        r.substats@.len() >= lines ==> !in_doubt(Some(r), lines),
        r.level <= 9 && r.substats@.len() < lines ==> in_doubt(Some(r), lines),
{
}

/// Of two results the one with more substats counts, and the first of two that have
/// as many; any result is better than none.
pub proof fn the_fuller_result_counts(a: SolverResult, b: SolverResult)
    ensures
        b.substats@.len() > a.substats@.len() ==> better(Some(a), Some(b)) == Some(b),
        b.substats@.len() <= a.substats@.len() ==> better(Some(a), Some(b)) == Some(a),
        better(None, Some(b)) == Some(b),
        better(Some(a), None) == Some(a),
        better(None, None) is None,
{
}

} // verus!
