//! Roll constraints on artifact substats.
//!
//! A substat grows by rolls, each of one of four tiers. What the game shows is
//! the rounded sum. The solver picks, among the readings of a level and of each
//! substat line, the first combination that the roll rules allow, and says how
//! many rolls each substat took.
//!
//! Tiers and internal sums are counted in hundredths, shown values in
//! millionths (`UNIT` of them make one).
use crate::text::{copy_of, same_text};
use crate::scanner::common::solver_laws::{
    consistent, readings, single_lines, solved_where_solvable, Reading,
};
use vstd::prelude::*;

verus! {

/// How many millionths make one.
pub const UNIT: i64 = 1_000_000;

/// How many millionths make a tenth.
pub const TENTH: i64 = 100_000;

/// The four roll tiers of a substat in hundredths, for five-star artifacts.
pub open spec fn tiers_5(key: Seq<char>) -> Option<Seq<u32>> {
    if key == "hp"@ {
        Some(seq![20913, 23900, 26888, 29875])
    } else if key == "hp_"@ {
        Some(seq![408, 466, 525, 583])
    } else if key == "atk"@ {
        Some(seq![1362, 1556, 1751, 1945])
    } else if key == "atk_"@ {
        Some(seq![408, 466, 525, 583])
    } else if key == "def"@ {
        Some(seq![1620, 1852, 2083, 2315])
    } else if key == "def_"@ {
        Some(seq![510, 583, 656, 729])
    } else if key == "eleMas"@ {
        Some(seq![1632, 1865, 2098, 2331])
    } else if key == "enerRech_"@ {
        Some(seq![453, 518, 583, 648])
    } else if key == "critRate_"@ {
        Some(seq![272, 311, 350, 389])
    } else if key == "critDMG_"@ {
        Some(seq![544, 622, 699, 777])
    } else {
        None
    }
}

/// The four roll tiers of a substat in hundredths, for four-star artifacts.
pub open spec fn tiers_4(key: Seq<char>) -> Option<Seq<u32>> {
    if key == "hp"@ {
        Some(seq![16730, 19120, 21510, 23900])
    } else if key == "hp_"@ {
        Some(seq![326, 373, 420, 466])
    } else if key == "atk"@ {
        Some(seq![1089, 1245, 1400, 1556])
    } else if key == "atk_"@ {
        Some(seq![326, 373, 420, 466])
    } else if key == "def"@ {
        Some(seq![1296, 1482, 1667, 1852])
    } else if key == "def_"@ {
        Some(seq![408, 466, 525, 583])
    } else if key == "eleMas"@ {
        Some(seq![1306, 1492, 1679, 1865])
    } else if key == "enerRech_"@ {
        Some(seq![363, 414, 466, 518])
    } else if key == "critRate_"@ {
        Some(seq![218, 249, 280, 311])
    } else if key == "critDMG_"@ {
        Some(seq![435, 497, 560, 622])
    } else {
        None
    }
}

/// The roll tiers of a substat: the five-star table for rarity 5, the
/// four-star table for any other.
pub open spec fn tiers_of(key: Seq<char>, rarity: i32) -> Option<Seq<u32>> {
    if rarity == 5 {
        tiers_5(key)
    } else {
        tiers_4(key)
    }
}

/// A stat whose key ends in an underscore is shown as a percentage.
pub open spec fn percent(key: Seq<char>) -> bool {
    key.len() > 0 && key.last() == '_'
}

/// What the game shows, in tenths, for an internal sum in hundredths: one
/// decimal place for percentages, none for flat stats, halves rounded up.
pub open spec fn shown(sum: int, pct: bool) -> int {
    if pct {
        (sum + 5) / 10
    } else {
        (sum + 50) / 100 * 10
    }
}

/// `n` rolls, so many of each tier.
pub open spec fn split(n: int, a: int, b: int, c: int, d: int) -> bool {
    0 <= a && 0 <= b && 0 <= c && 0 <= d && a + b + c + d == n
}

/// The internal sum of so many rolls of each tier.
pub open spec fn split_sum(tiers: Seq<u32>, a: int, b: int, c: int, d: int) -> int {
    a * tiers[0] + b * tiers[1] + c * tiers[2] + d * tiers[3]
}

/// A shown value in tenths lies within a hundredth of a value in millionths.
pub open spec fn near(tenths: int, value: int) -> bool {
    -10_000 < tenths * TENTH - value < 10_000
}

/// `n` rolls on top of `base` can be shown as `value`.
pub open spec fn rolls_show(tiers: Seq<u32>, base: int, n: int, value: int, pct: bool) -> bool {
    exists|a: int, b: int, c: int, d: int| #[trigger]
        split(n, a, b, c, d) && near(shown(base + split_sum(tiers, a, b, c, d), pct), value)
}

/// A value in millionths to the nearest tenth, halves away from zero.
pub open spec fn to_tenths(value: int) -> int {
    if value >= 0 {
        (value + 50_000) / 100_000
    } else {
        -((-value + 50_000) / 100_000)
    }
}

/// A substat of that key and rarity can have taken `n` rolls to be shown with
/// the value.
pub open spec fn possible_rolls(key: Seq<char>, rarity: i32, value: i64, n: int) -> bool {
    1 <= n <= 8 && match tiers_of(key, rarity) {
        Some(tiers) => rolls_show(
            tiers,
            0,
            n,
            to_tenths(value as int) * TENTH,
            percent(key),
        ),
        None => false,
    }
}

/// Bit `n - 1` of a mask.
pub open spec fn has_bit(mask: u8, n: int) -> bool {
    1 <= n <= 8 && mask & (1u8 << ((n - 1) as u8)) != 0
}

/// The possible roll counts up to `limit`, in increasing order and none above
/// `max_per`.
pub open spec fn roll_counts(
    key: Seq<char>,
    rarity: i32,
    value: i64,
    max_per: int,
    limit: nat,
) -> Seq<i32>
    decreases limit,
{
    if limit == 0 {
        Seq::empty()
    } else {
        let fewer = roll_counts(key, rarity, value, max_per, (limit - 1) as nat);
        if limit <= max_per && possible_rolls(key, rarity, value, limit as int) {
            fewer.push(limit as i32)
        } else {
            fewer
        }
    }
}

proof fn lemma_no_roll_counts(key: Seq<char>, rarity: i32, value: i64, max_per: int, limit: nat)
    requires
        forall|n: int| !possible_rolls(key, rarity, value, n),
    ensures
        roll_counts(key, rarity, value, max_per, limit) == Seq::<i32>::empty(),
    decreases limit,
{
    if limit > 0 {
        lemma_no_roll_counts(key, rarity, value, max_per, (limit - 1) as nat);
    }
}

/// The initial roll can have been of tier `t`: the other rolls on top of it are
/// shown as the value.
pub open spec fn initial_tier(tiers: Seq<u32>, t: int, n: int, value: int, pct: bool) -> bool {
    0 <= t < 4 && rolls_show(tiers, tiers[t] as int, n - 1, value, pct)
}

/// Some tier can have been the initial one, and all that can are shown alike.
pub open spec fn initial_agreed(
    tiers: Seq<u32>,
    n: int,
    value: int,
    pct: bool,
    tenths: int,
) -> bool {
    &&& exists|t: int| initial_tier(tiers, t, n, value, pct)
    &&& forall|t: int| #[trigger]
        initial_tier(tiers, t, n, value, pct) ==> shown(tiers[t] as int, pct) == tenths
}

/// The shown value of the initial roll, where the rolls leave no doubt about it.
pub open spec fn initial_value_of(key: Seq<char>, rarity: i32, value: i64, n: int) -> Option<i64> {
    match tiers_of(key, rarity) {
        Some(tiers) => if exists|x: int|
            initial_agreed(tiers, n, value as int, percent(key), x) {
            let x = choose|x: int| initial_agreed(tiers, n, value as int, percent(key), x);
            Some((x * TENTH) as i64)
        } else {
            None
        },
        None => None,
    }
}

proof fn lemma_initial_value(
    key: Seq<char>,
    rarity: i32,
    value: i64,
    n: int,
    tiers: Seq<u32>,
    x: int,
)
    requires
        tiers_of(key, rarity) == Some(tiers),
        initial_agreed(tiers, n, value as int, percent(key), x),
    ensures
        initial_value_of(key, rarity, value, n) == Some((x * TENTH) as i64),
{
    let y = choose|y: int| initial_agreed(tiers, n, value as int, percent(key), y);
    assert(initial_agreed(tiers, n, value as int, percent(key), y));
    let t = choose|t: int| initial_tier(tiers, t, n, value as int, percent(key));
    assert(initial_tier(tiers, t, n, value as int, percent(key)));
    assert(x == y);
}

/// One count out of each list so that they add up to `total`: the first such
/// choice, where earlier lists vary most slowly and each is tried in its order.
pub open spec fn first_assignment(lists: Seq<Seq<i32>>, total: int) -> Option<Seq<i32>>
    decreases lists.len(), (if lists.len() > 0 { lists[0].len() + 1 } else { 0 }) as int,
{
    if lists.len() == 0 {
        if total == 0 {
            Some(Seq::empty())
        } else {
            None
        }
    } else {
        first_assignment_from(lists, total, 0)
    }
}

/// As `first_assignment`, with the first list tried from its element `k` on.
pub open spec fn first_assignment_from(
    lists: Seq<Seq<i32>>,
    total: int,
    k: int,
) -> Option<Seq<i32>>
    decreases lists.len(), lists[0].len() - k,
{
    if lists.len() == 0 || k < 0 || k >= lists[0].len() {
        None
    } else {
        match first_assignment(lists.skip(1), total - lists[0][k]) {
            Some(rest) => Some(seq![lists[0][k]] + rest),
            None => first_assignment_from(lists, total, k + 1),
        }
    }
}

/// The sum of some counts.
pub open spec fn sum_of(counts: Seq<i32>) -> int
    decreases counts.len(),
{
    if counts.len() == 0 {
        0
    } else {
        counts[0] + sum_of(counts.skip(1))
    }
}

/// One count out of each list, adding up to `total`.
pub open spec fn is_assignment(lists: Seq<Seq<i32>>, total: int, counts: Seq<i32>) -> bool {
    &&& counts.len() == lists.len()
    &&& forall|i: int| 0 <= i < lists.len() ==> lists[i].contains(#[trigger] counts[i])
    &&& sum_of(counts) == total
}

/// The lists that a vector of vectors holds.
pub open spec fn lists_of(v: Seq<Vec<i32>>) -> Seq<Seq<i32>> {
    v.map_values(|x: Vec<i32>| x@)
}

proof fn lemma_from_witness(lists: Seq<Seq<i32>>, total: int, k: int)
    requires
        first_assignment_from(lists, total, k) is Some,
    ensures
        exists|j: int| #![trigger lists[0][j]]
            k <= j < lists[0].len() && first_assignment(lists.skip(1), total - lists[0][j]) is Some
                && first_assignment_from(lists, total, k)->0 == seq![lists[0][j]]
                + first_assignment(lists.skip(1), total - lists[0][j])->0,
    decreases lists[0].len() - k,
{
    match first_assignment(lists.skip(1), total - lists[0][k]) {
        Some(rest) => {
            assert(lists[0][k] == lists[0][k]);
        },
        None => {
            lemma_from_witness(lists, total, k + 1);
        },
    }
}

proof fn lemma_from_reaches(lists: Seq<Seq<i32>>, total: int, k: int, j: int)
    requires
        lists.len() > 0,
        0 <= k <= j < lists[0].len(),
        first_assignment(lists.skip(1), total - lists[0][j]) is Some,
    ensures
        first_assignment_from(lists, total, k) is Some,
    decreases j - k,
{
    if k < j && first_assignment(lists.skip(1), total - lists[0][k]) is None {
        lemma_from_reaches(lists, total, k + 1, j);
    }
}

/// What `first_assignment` finds is an assignment.
pub proof fn assignment_is_sound(lists: Seq<Seq<i32>>, total: int)
    ensures
        first_assignment(lists, total) matches Some(counts) ==> is_assignment(lists, total, counts),
    decreases lists.len(),
{
    if lists.len() > 0 && first_assignment(lists, total) is Some {
        lemma_from_witness(lists, total, 0);
        let j = choose|j: int| #![trigger lists[0][j]]
            0 <= j < lists[0].len() && first_assignment(lists.skip(1), total - lists[0][j]) is Some
                && first_assignment_from(lists, total, 0)->0 == seq![lists[0][j]]
                + first_assignment(lists.skip(1), total - lists[0][j])->0;
        assignment_is_sound(lists.skip(1), total - lists[0][j]);
        let counts = first_assignment(lists, total)->0;
        let rest = first_assignment(lists.skip(1), total - lists[0][j])->0;
        assert(counts.skip(1) == rest);
        assert forall|i: int| 0 <= i < lists.len() implies lists[i].contains(
            #[trigger] counts[i],
        ) by {
            if i == 0 {
                assert(lists[0][j] == counts[0]);
            } else {
                assert(counts[i] == rest[i - 1]);
                assert(lists.skip(1)[i - 1].contains(rest[i - 1]));
            }
        }
    }
}

/// Where an assignment exists, `first_assignment` finds one.
pub proof fn assignment_is_complete(lists: Seq<Seq<i32>>, total: int, counts: Seq<i32>)
    requires
        is_assignment(lists, total, counts),
    ensures
        first_assignment(lists, total) is Some,
    decreases lists.len(),
{
    if lists.len() > 0 {
        let rest = counts.skip(1);
        assert(lists[0].contains(counts[0]));
        let j = choose|j: int| 0 <= j < lists[0].len() && lists[0][j] == counts[0];
        assert forall|i: int| 0 <= i < lists.skip(1).len() implies lists.skip(1)[i].contains(
            #[trigger] rest[i],
        ) by {
            assert(lists[i + 1].contains(counts[i + 1]));
        }
        assignment_is_complete(lists.skip(1), total - lists[0][j], rest);
        lemma_from_reaches(lists, total, 0, j);
    }
}

/// A tier in hundredths is at most this much.
pub const MAX_TIER: u32 = 30_000;

fn tier_array(a: u32, b: u32, c: u32, d: u32) -> (tiers: [u32; 4])
    ensures
        tiers@ == seq![a, b, c, d],
{
    let tiers: [u32; 4] = [a, b, c, d];
    assert(tiers@ == seq![a, b, c, d]);
    tiers
}

/// The roll tiers of a substat in hundredths.
pub fn roll_tiers(key: &str, rarity: i32) -> (tiers: Option<[u32; 4]>)
    ensures
        match tiers {
            Some(t) => tiers_of(key@, rarity) == Some(t@) && forall|i: int|
                0 <= i < 4 ==> 0 < #[trigger] t@[i] <= MAX_TIER,
            None => tiers_of(key@, rarity) is None,
        },
{
    if rarity == 5 {
        if same_text(key, "hp") {
            Some(tier_array(20913, 23900, 26888, 29875))
        } else if same_text(key, "hp_") {
            Some(tier_array(408, 466, 525, 583))
        } else if same_text(key, "atk") {
            Some(tier_array(1362, 1556, 1751, 1945))
        } else if same_text(key, "atk_") {
            Some(tier_array(408, 466, 525, 583))
        } else if same_text(key, "def") {
            Some(tier_array(1620, 1852, 2083, 2315))
        } else if same_text(key, "def_") {
            Some(tier_array(510, 583, 656, 729))
        } else if same_text(key, "eleMas") {
            Some(tier_array(1632, 1865, 2098, 2331))
        } else if same_text(key, "enerRech_") {
            Some(tier_array(453, 518, 583, 648))
        } else if same_text(key, "critRate_") {
            Some(tier_array(272, 311, 350, 389))
        } else if same_text(key, "critDMG_") {
            Some(tier_array(544, 622, 699, 777))
        } else {
            None
        }
    } else {
        if same_text(key, "hp") {
            Some(tier_array(16730, 19120, 21510, 23900))
        } else if same_text(key, "hp_") {
            Some(tier_array(326, 373, 420, 466))
        } else if same_text(key, "atk") {
            Some(tier_array(1089, 1245, 1400, 1556))
        } else if same_text(key, "atk_") {
            Some(tier_array(326, 373, 420, 466))
        } else if same_text(key, "def") {
            Some(tier_array(1296, 1482, 1667, 1852))
        } else if same_text(key, "def_") {
            Some(tier_array(408, 466, 525, 583))
        } else if same_text(key, "eleMas") {
            Some(tier_array(1306, 1492, 1679, 1865))
        } else if same_text(key, "enerRech_") {
            Some(tier_array(363, 414, 466, 518))
        } else if same_text(key, "critRate_") {
            Some(tier_array(218, 249, 280, 311))
        } else if same_text(key, "critDMG_") {
            Some(tier_array(435, 497, 560, 622))
        } else {
            None
        }
    }
}

/// Whether a stat is shown as a percentage.
pub fn is_percent_stat(key: &str) -> (pct: bool)
    ensures
        pct == percent(key@),
{
    let n: usize = key.unicode_len();
    n > 0 && key.get_char(n - 1) == '_'
}

/// What the game shows, in tenths, for an internal sum in hundredths.
pub fn round_to_display(sum: u32, pct: bool) -> (tenths: u32)
    requires
        sum <= 0x7fff_ffff,
    ensures
        tenths == shown(sum as int, pct),
{
    if pct {
        (sum + 5) / 10
    } else {
        (sum + 50) / 100 * 10
    }
}

/// Whether an internal sum in hundredths is shown within a hundredth of the
/// value.
fn matches_display(sum: u32, value: i128, pct: bool) -> (yes: bool)
    requires
        sum <= 0x7fff_ffff,
        -0x1_0000_0000_0000_0000 <= value <= 0x1_0000_0000_0000_0000,
    ensures
        yes == near(shown(sum as int, pct), value as int),
{
    let tenths: u32 = round_to_display(sum, pct);
    let gap: i128 = tenths as i128 * 100_000 - value;
    -10_000 < gap && gap < 10_000
}

/// Whether `n` rolls on top of `base` can be shown as the value.
fn some_rolls_show(tiers: &[u32; 4], base: u32, n: u32, value: i128, pct: bool) -> (yes: bool)
    requires
        -0x1_0000_0000_0000_0000 <= value <= 0x1_0000_0000_0000_0000,
        n <= 8,
        base <= MAX_TIER,
        forall|i: int| 0 <= i < 4 ==> #[trigger] tiers@[i] <= MAX_TIER,
    ensures
        yes == rolls_show(tiers@, base as int, n as int, value as int, pct),
{
    let ghost hit = |a: int, b: int, c: int, d: int|
        near(shown(base + split_sum(tiers@, a, b, c, d), pct), value as int);
    let mut a: u32 = 0;
    while a <= n
        invariant
            n <= 8,
            base <= MAX_TIER,
            -0x1_0000_0000_0000_0000 <= value <= 0x1_0000_0000_0000_0000,
            a <= n + 1,
            forall|i: int| 0 <= i < 4 ==> #[trigger] tiers@[i] <= MAX_TIER,
            hit == (|a: int, b: int, c: int, d: int|
                near(shown(base + split_sum(tiers@, a, b, c, d), pct), value as int)),
            forall|x: int, y: int, z: int, w: int| #[trigger]
                split(n as int, x, y, z, w) && x < a ==> !hit(x, y, z, w),
        decreases n + 1 - a,
    {
        let mut b: u32 = 0;
        while b <= n - a
            invariant
                n <= 8,
                base <= MAX_TIER,
                -0x1_0000_0000_0000_0000 <= value <= 0x1_0000_0000_0000_0000,
                a <= n,
                b <= n - a + 1,
                forall|i: int| 0 <= i < 4 ==> #[trigger] tiers@[i] <= MAX_TIER,
                hit == (|a: int, b: int, c: int, d: int|
                    near(shown(base + split_sum(tiers@, a, b, c, d), pct), value as int)),
                forall|x: int, y: int, z: int, w: int| #[trigger]
                    split(n as int, x, y, z, w) && (x < a || (x == a && y < b)) ==> !hit(x, y, z, w),
            decreases n - a + 1 - b,
        {
            let mut c: u32 = 0;
            while c <= n - a - b
                invariant
                    n <= 8,
                    base <= MAX_TIER,
                    -0x1_0000_0000_0000_0000 <= value <= 0x1_0000_0000_0000_0000,
                    a + b <= n,
                    c <= n - a - b + 1,
                    forall|i: int| 0 <= i < 4 ==> #[trigger] tiers@[i] <= MAX_TIER,
                    hit == (|a: int, b: int, c: int, d: int|
                        near(shown(base + split_sum(tiers@, a, b, c, d), pct), value as int)),
                    forall|x: int, y: int, z: int, w: int| #[trigger]
                        split(n as int, x, y, z, w) && (x < a || (x == a && y < b) || (x == a && y
                            == b && z < c)) ==> !hit(x, y, z, w),
                decreases n - a - b + 1 - c,
            {
                let d: u32 = n - a - b - c;
                assert(tiers@[0] <= MAX_TIER && tiers@[1] <= MAX_TIER && tiers@[2] <= MAX_TIER
                    && tiers@[3] <= MAX_TIER);
                assert(0 <= a * tiers@[0] <= 8 * MAX_TIER) by (nonlinear_arith)
                    requires
                        0 <= a <= 8,
                        0 <= tiers@[0] <= MAX_TIER,
                ;
                assert(0 <= b * tiers@[1] <= 8 * MAX_TIER) by (nonlinear_arith)
                    requires
                        0 <= b <= 8,
                        0 <= tiers@[1] <= MAX_TIER,
                ;
                assert(0 <= c * tiers@[2] <= 8 * MAX_TIER) by (nonlinear_arith)
                    requires
                        0 <= c <= 8,
                        0 <= tiers@[2] <= MAX_TIER,
                ;
                assert(0 <= d * tiers@[3] <= 8 * MAX_TIER) by (nonlinear_arith)
                    requires
                        0 <= d <= 8,
                        0 <= tiers@[3] <= MAX_TIER,
                ;
                let sum: u32 = base + (a * tiers[0] + b * tiers[1] + c * tiers[2] + d * tiers[3]);
                assert(sum == base + split_sum(tiers@, a as int, b as int, c as int, d as int));
                if matches_display(sum, value, pct) {
                    assert(split(n as int, a as int, b as int, c as int, d as int));
                    return true;
                }
                assert(!hit(a as int, b as int, c as int, d as int));
                c = c + 1;
            }
            b = b + 1;
        }
        a = a + 1;
    }
    assert forall|x: int, y: int, z: int, w: int| #[trigger]
        split(n as int, x, y, z, w) implies !near(
        shown(base + split_sum(tiers@, x, y, z, w), pct),
        value as int,
    ) by {
        assert(!hit(x, y, z, w));
    }
    false
}

proof fn lemma_set_bit(mask: u8, k: u8, n: u8)
    requires
        k < 8,
        n < 8,
    ensures
        ((mask | (1u8 << k)) & (1u8 << n) != 0) == (mask & (1u8 << n) != 0 || n == k),
{
    assert(((mask | (1u8 << k)) & (1u8 << n) != 0) == (mask & (1u8 << n) != 0 || n == k))
        by (bit_vector)
        requires
            k < 8,
            n < 8,
    ;
}

/// The roll counts from 1 to 8 that can be shown as the value, as a mask in
/// which bit `n - 1` stands for `n` rolls; nothing where there is none.
pub fn roll_table_lookup(key: &str, rarity: i32, display_value: i64) -> (found: Option<u8>)
    ensures
        match found {
            Some(mask) => mask != 0 && forall|n: int|
                #![trigger has_bit(mask, n)]
                #![trigger possible_rolls(key@, rarity, display_value, n)]
                has_bit(mask, n) == possible_rolls(key@, rarity, display_value, n),
            None => forall|n: int| !possible_rolls(key@, rarity, display_value, n),
        },
{
    let tiers = match roll_tiers(key, rarity) {
        Some(t) => t,
        None => {
            return None;
        },
    };
    let pct = is_percent_stat(key);
    let rounded: i128 = if display_value >= 0 {
        (display_value as i128 + 50_000) / 100_000 * 100_000
    } else {
        -((-(display_value as i128) + 50_000) / 100_000 * 100_000)
    };
    assert(rounded == to_tenths(display_value as int) * TENTH);
    let mut mask: u8 = 0;
    let mut n: u8 = 0;
    assert forall|m: int| 1 <= m <= 8 implies !has_bit(0, m) by {
        let k = (m - 1) as u8;
        assert(0u8 & (1u8 << k) == 0) by (bit_vector);
    }
    while n < 8
        invariant
            n <= 8,
            tiers_of(key@, rarity) == Some(tiers@),
            forall|i: int| 0 <= i < 4 ==> 0 < #[trigger] tiers@[i] <= MAX_TIER,
            pct == percent(key@),
            rounded == to_tenths(display_value as int) * TENTH,
            -0x1_0000_0000_0000_0000 <= rounded <= 0x1_0000_0000_0000_0000,
            forall|m: int| 1 <= m <= n ==> has_bit(mask, m) == possible_rolls(
                key@,
                rarity,
                display_value,
                m,
            ),
            forall|m: int| n < m <= 8 ==> !has_bit(mask, m),
            mask == 0 ==> forall|m: int| 1 <= m <= n ==> !possible_rolls(
                key@,
                rarity,
                display_value,
                m,
            ),
        decreases 8 - n,
    {
        if some_rolls_show(&tiers, 0, n as u32 + 1, rounded, pct) {
            let ghost before = mask;
            mask = mask | (1u8 << n);
            assert forall|m: int| 1 <= m <= 8 implies has_bit(mask, m) == (has_bit(before, m) || m
                == n + 1) by {
                lemma_set_bit(before, n, (m - 1) as u8);
            }
            assert(has_bit(mask, n + 1));
            assert(mask != 0) by {
                assert(before | (1u8 << n) != 0) by (bit_vector)
                    requires
                        n < 8,
                ;
            }
        }
        n = n + 1;
    }
    if mask == 0 {
        None
    } else {
        Some(mask)
    }
}

/// All the roll counts, in increasing order and at most `max_per_stat`, that
/// can be shown as the value.
pub fn valid_roll_counts(key: &str, rarity: i32, display_value: i64, max_per_stat: i32) -> (counts:
    Vec<i32>)
    ensures
        counts@ == roll_counts(key@, rarity, display_value, max_per_stat as int, 8),
{
    let mask = match roll_table_lookup(key, rarity, display_value) {
        Some(m) => m,
        None => {
            proof {
                lemma_no_roll_counts(key@, rarity, display_value, max_per_stat as int, 8);
            }
            return Vec::new();
        },
    };
    let mut counts: Vec<i32> = Vec::new();
    let mut n: u8 = 0;
    while n < 8
        invariant
            n <= 8,
            counts@ == roll_counts(key@, rarity, display_value, max_per_stat as int, n as nat),
            forall|m: int| #[trigger]
                has_bit(mask, m) == possible_rolls(key@, rarity, display_value, m),
        decreases 8 - n,
    {
        assert(has_bit(mask, n + 1) == possible_rolls(key@, rarity, display_value, n + 1));
        if n as i32 + 1 <= max_per_stat && mask & (1u8 << n) != 0 {
            counts.push(n as i32 + 1);
        }
        n = n + 1;
    }
    counts
}

/// The shown value of the initial roll of a substat that took `roll_count`
/// rolls, where it can be told.
pub fn compute_initial_value(key: &str, rarity: i32, display_value: i64, roll_count: i32) -> (value:
    Option<i64>)
    requires
        1 <= roll_count <= 8,
    ensures
        value == initial_value_of(key@, rarity, display_value, roll_count as int),
{
    let tiers = match roll_tiers(key, rarity) {
        Some(t) => t,
        None => {
            return None;
        },
    };
    let pct = is_percent_stat(key);
    let ghost v = display_value as int;
    let ghost n = roll_count as int;
    let mut found: Option<u32> = None;
    let mut t: usize = 0;
    while t < 4
        invariant
            t <= 4,
            1 <= roll_count <= 8,
            n == roll_count,
            v == display_value,
            tiers_of(key@, rarity) == Some(tiers@),
            forall|i: int| 0 <= i < 4 ==> 0 < #[trigger] tiers@[i] <= MAX_TIER,
            pct == percent(key@),
            match found {
                Some(x) => (exists|i: int| i < t && #[trigger] initial_tier(tiers@, i, n, v, pct))
                    && x <= 300_000 && forall|i: int|
                    i < t && #[trigger] initial_tier(tiers@, i, n, v, pct) ==> shown(
                        tiers@[i] as int,
                        pct,
                    ) == x,
                None => forall|i: int| i < t ==> !#[trigger] initial_tier(tiers@, i, n, v, pct),
            },
        decreases 4 - t,
    {
        assert(tiers@[t as int] <= MAX_TIER);
        let tier: u32 = tiers[t];
        if some_rolls_show(&tiers, tier, (roll_count - 1) as u32, display_value as i128, pct) {
            assert(initial_tier(tiers@, t as int, n, v, pct));
            let tenths: u32 = round_to_display(tier, pct);
            match found {
                Some(x) => {
                    if x != tenths {
                        assert forall|y: int| !initial_agreed(tiers@, n, v, pct, y) by {
                            let i = choose|i: int|
                                i < t && #[trigger] initial_tier(tiers@, i, n, v, pct);
                            assert(initial_tier(tiers@, i, n, v, pct));
                        }
                        return None;
                    }
                },
                None => {
                    found = Some(tenths);
                },
            }
        }
        t = t + 1;
    }
    match found {
        Some(x) => {
            assert(initial_agreed(tiers@, n, v, pct, x as int));
            proof {
                lemma_initial_value(key@, rarity, display_value, n, tiers@, x as int);
            }
            Some(x as i64 * TENTH)
        },
        None => None,
    }
}

/// The least count of a list; one where it has none.
fn least_count(list: &Vec<i32>) -> (least: i32)
    requires
        forall|j: int| 0 <= j < list@.len() ==> 1 <= #[trigger] list@[j],
    ensures
        1 <= least,
        forall|j: int| 0 <= j < list@.len() ==> least <= #[trigger] list@[j],
        if list@.len() == 0 {
            least == 1
        } else {
            exists|j: int| 0 <= j < list@.len() && least == #[trigger] list@[j]
        },
{
    if list.len() == 0 {
        return 1;
    }
    let mut least: i32 = list[0];
    let mut j: usize = 1;
    while j < list.len()
        invariant
            1 <= j <= list@.len(),
            forall|i: int| 0 <= i < list@.len() ==> 1 <= #[trigger] list@[i],
            1 <= least,
            forall|i: int| 0 <= i < j ==> least <= #[trigger] list@[i],
            exists|i: int| 0 <= i < j && least == #[trigger] list@[i],
        decreases list@.len() - j,
    {
        if list[j] < least {
            least = list[j];
        }
        j = j + 1;
    }
    least
}

/// A number that no `i32` reaches.
const OUT_OF_REACH: i64 = 0x8000_0000;

/// A bound from below on what the lists from `from` on can add up to. Above all
/// that fits an `i32` it is not counted on.
fn least_total(valid_counts: &Vec<Vec<i32>>, from: usize) -> (least: i64)
    requires
        from <= valid_counts@.len(),
        forall|i: int, j: int|
            0 <= i < valid_counts@.len() && 0 <= j < valid_counts@[i]@.len() ==> 1
                <= #[trigger] valid_counts@[i]@[j],
    ensures
        0 <= least <= OUT_OF_REACH,
        forall|t: int| #[trigger]
            first_assignment(lists_of(valid_counts@).skip(from as int), t) is Some ==> least <= t,
{
    let ghost lists = lists_of(valid_counts@);
    let mut least: i64 = 0;
    let mut i: usize = valid_counts.len();
    assert forall|t: int| #[trigger] first_assignment(lists.skip(i as int), t) is Some implies 0
        <= t by {
        assert(lists.skip(i as int).len() == 0);
    }
    while i > from
        invariant
            from <= i <= valid_counts@.len(),
            lists == lists_of(valid_counts@),
            0 <= least <= OUT_OF_REACH,
            forall|i: int, j: int|
                0 <= i < valid_counts@.len() && 0 <= j < valid_counts@[i]@.len() ==> 1
                    <= #[trigger] valid_counts@[i]@[j],
            forall|t: int| #[trigger]
                first_assignment(lists.skip(i as int), t) is Some ==> least <= t,
        decreases i,
    {
        let ghost old_least = least;
        i = i - 1;
        assert forall|j: int| 0 <= j < valid_counts@[i as int]@.len() implies 1
            <= #[trigger] valid_counts@[i as int]@[j] by {}
        let one: i32 = least_count(&valid_counts[i]);
        let sum: i64 = least + one as i64;
        least = if sum < OUT_OF_REACH {
            sum
        } else {
            OUT_OF_REACH
        };
        assert forall|t: int| #[trigger]
            first_assignment(lists.skip(i as int), t) is Some implies least <= t by {
            let here = lists.skip(i as int);
            lemma_from_witness(here, t, 0);
            let j = choose|j: int| #![trigger here[0][j]]
                0 <= j < here[0].len() && first_assignment(here.skip(1), t - here[0][j]) is Some
                    && first_assignment_from(here, t, 0)->0 == seq![here[0][j]]
                    + first_assignment(here.skip(1), t - here[0][j])->0;
            assert(here.skip(1) == lists.skip(i + 1));
            assert(here[0] == valid_counts@[i as int]@);
            assert(here[0][j] == valid_counts@[i as int]@[j]);
        }
    }
    least
}

/// One roll count per substat out of its valid counts so that they add up to
/// `total_rolls`.
pub fn find_assignment(valid_counts: &Vec<Vec<i32>>, total_rolls: i32) -> (found: Option<Vec<i32>>)
    requires
        forall|i: int, j: int|
            0 <= i < valid_counts@.len() && 0 <= j < valid_counts@[i]@.len() ==> 1
                <= #[trigger] valid_counts@[i]@[j],
    ensures
        match found {
            Some(a) => first_assignment(lists_of(valid_counts@), total_rolls as int) == Some(a@),
            None => first_assignment(lists_of(valid_counts@), total_rolls as int) is None,
        },
{
    let mut assignment: Vec<i32> = Vec::new();
    assert(lists_of(valid_counts@).skip(0) == lists_of(valid_counts@));
    if backtrack(valid_counts, total_rolls, 0, &mut assignment) {
        Some(assignment)
    } else {
        None
    }
}

/// Extends the counts chosen for the first `idx` substats to all of them.
fn backtrack(
    valid_counts: &Vec<Vec<i32>>,
    remaining: i32,
    idx: usize,
    assignment: &mut Vec<i32>,
) -> (done: bool)
    requires
        idx <= valid_counts@.len(),
        old(assignment)@.len() == idx,
        forall|i: int, j: int|
            0 <= i < valid_counts@.len() && 0 <= j < valid_counts@[i]@.len() ==> 1
                <= #[trigger] valid_counts@[i]@[j],
    ensures
        match first_assignment(lists_of(valid_counts@).skip(idx as int), remaining as int) {
            Some(rest) => done && final(assignment)@ == old(assignment)@ + rest,
            None => !done && final(assignment)@ == old(assignment)@,
        },
    decreases valid_counts@.len() - idx,
{
    let ghost start = assignment@;
    let ghost lists = lists_of(valid_counts@);
    let ghost here = lists.skip(idx as int);
    if idx == valid_counts.len() {
        assert(here.len() == 0);
        assert(start + Seq::<i32>::empty() == start);
        return remaining == 0;
    }
    let least: i64 = least_total(valid_counts, idx + 1);
    assert(here.skip(1) == lists.skip(idx + 1));
    assert(here[0] == valid_counts@[idx as int]@);
    let mut k: usize = 0;
    while k < valid_counts[idx].len()
        invariant
            idx < valid_counts@.len() <= usize::MAX,
            k <= valid_counts@[idx as int]@.len(),
            start.len() == idx,
            start == old(assignment)@,
            assignment@ == start,
            lists == lists_of(valid_counts@),
            here == lists.skip(idx as int),
            here.skip(1) == lists.skip(idx + 1),
            here[0] == valid_counts@[idx as int]@,
            0 <= least,
            forall|t: int| #[trigger]
                first_assignment(lists.skip(idx + 1), t) is Some ==> least <= t,
            forall|i: int, j: int|
                0 <= i < valid_counts@.len() && 0 <= j < valid_counts@[i]@.len() ==> 1
                    <= #[trigger] valid_counts@[i]@[j],
            first_assignment(here, remaining as int) == first_assignment_from(
                here,
                remaining as int,
                k as int,
            ),
        decreases valid_counts@[idx as int]@.len() - k,
    {
        let count: i32 = valid_counts[idx][k];
        assert(1 <= valid_counts@[idx as int]@[k as int]);
        assert(here[0][k as int] == count);
        if count <= remaining && (remaining - count) as i64 >= least {
            assignment.push(count);
            if backtrack(valid_counts, remaining - count, idx + 1, assignment) {
                proof {
                    let rest = first_assignment(
                        lists.skip(idx + 1),
                        remaining - count,
                    )->0;
                    assert(start.push(count) + rest == start + (seq![count] + rest));
                }
                return true;
            }
            assignment.pop();
            assert(assignment@ == start);
        } else {
            assert(first_assignment(here.skip(1), remaining - count) is None) by {
                if first_assignment(lists.skip(idx + 1), remaining - count) is Some {
                    assert(least <= remaining - count);
                }
            }
        }
        k = k + 1;
    }
    false
}

/// A reading of one substat line.
#[derive(Debug, Clone)]
pub struct OcrCandidate {
    pub key: String,
    /// The value in millionths.
    pub value: i64,
    /// Whether the line was read as not yet activated.
    pub inactive: bool,
}

/// The readings of one artifact.
#[derive(Debug, Clone)]
pub struct SolverInput {
    pub rarity: i32,
    /// The readings of the level.
    pub level_candidates: Vec<i32>,
    /// For each substat line its readings.
    pub substat_candidates: Vec<Vec<OcrCandidate>>,
}

/// A substat with the rolls it took.
#[derive(Debug, Clone)]
pub struct SolvedSubstat {
    pub key: String,
    /// The value in millionths.
    pub value: i64,
    pub roll_count: i32,
    /// The shown value of the initial roll in millionths, where it can be told.
    pub initial_value: Option<i64>,
    /// Whether the line was read as not yet activated.
    pub inactive: bool,
}

/// What the solver makes of the readings.
#[derive(Debug, Clone)]
pub struct SolverResult {
    pub level: i32,
    pub substats: Vec<SolvedSubstat>,
    /// How many substats the artifact started with.
    pub initial_substat_count: i32,
    /// The rolls of all substats together.
    pub total_rolls: i32,
}

/// One way in which the roll rules can be met.
#[derive(Debug, Clone, Copy)]
pub struct Plan {
    pub level: i32,
    /// How many substats the artifact started with.
    pub init: i32,
    /// How many substats are visible.
    pub expected: i32,
    /// How many rolls they took together.
    pub rolls: i32,
}

/// The highest level of an artifact.
pub open spec fn max_level_of(rarity: i32) -> i32 {
    if rarity == 5 {
        20
    } else {
        16
    }
}

/// A level brought into the range from 0 to the highest.
pub open spec fn clamped(level: i32, rarity: i32) -> i32 {
    if level < 0 {
        0
    } else if level > max_level_of(rarity) {
        max_level_of(rarity)
    } else {
        level
    }
}

/// The plans for a level and a number of initial substats: one roll for each
/// initial substat and one per four levels, of which the first ones fill the
/// artifact up to four substats. At level 0 an artifact that started with
/// fewer than the most may also show the substat that is not yet activated.
pub open spec fn plans_for_init(level: i32, rarity: i32, init: i32) -> Seq<Plan> {
    let upgrades = level as int / 4;
    let adds = if 4 - init < upgrades {
        4 - init
    } else {
        upgrades
    };
    let most = if rarity == 5 {
        4int
    } else {
        3int
    };
    let plain = Plan {
        level,
        init,
        expected: (init + adds) as i32,
        rolls: (init + upgrades) as i32,
    };
    let pending = Plan {
        level,
        init,
        expected: (init + adds + 1) as i32,
        rolls: (init + upgrades + 1) as i32,
    };
    if level == 0 && init < most {
        seq![pending, plain]
    } else {
        seq![plain]
    }
}

/// The plans for a level: the larger number of initial substats first at level
/// 0, the smaller one first above it.
pub open spec fn plans_for_level(level: i32, rarity: i32) -> Seq<Plan> {
    let more = if rarity == 5 {
        4i32
    } else {
        3i32
    };
    let fewer = (more - 1) as i32;
    if level == 0 {
        plans_for_init(level, rarity, more) + plans_for_init(level, rarity, fewer)
    } else {
        plans_for_init(level, rarity, fewer) + plans_for_init(level, rarity, more)
    }
}

/// The plans for some readings of the level, in their order.
pub open spec fn plans_for(levels: Seq<i32>, rarity: i32) -> Seq<Plan>
    decreases levels.len(),
{
    if levels.len() == 0 {
        Seq::empty()
    } else {
        plans_for(levels.drop_last(), rarity) + plans_for_level(
            clamped(levels.last(), rarity),
            rarity,
        )
    }
}

/// A choice on each line: 0 for no substat, `k` for the line's reading `k`.
pub open spec fn selectable(lines: Seq<Vec<OcrCandidate>>, sel: Seq<usize>) -> bool {
    sel.len() == lines.len() && forall|i: int|
        0 <= i < lines.len() ==> #[trigger] sel[i] <= lines[i]@.len()
}

/// The readings chosen on the lines.
pub open spec fn chosen(lines: Seq<Vec<OcrCandidate>>, sel: Seq<usize>) -> Seq<OcrCandidate>
    decreases lines.len(),
{
    if lines.len() == 0 {
        Seq::empty()
    } else {
        let earlier = chosen(lines.drop_last(), sel.drop_last());
        if sel.last() == 0 {
            earlier
        } else {
            earlier.push(lines.last()@[sel.last() - 1])
        }
    }
}

/// The number that the choices on the first `n` lines write, each line a digit
/// with as many values as the line has choices. Selections are tried by
/// increasing number.
pub open spec fn rank(lines: Seq<Vec<OcrCandidate>>, sel: Seq<usize>, n: nat) -> int
    decreases n,
{
    if n == 0 {
        0
    } else {
        rank(lines, sel, (n - 1) as nat) * (lines[n - 1]@.len() + 1) + sel[n - 1]
    }
}

/// How many selections there are on the first `n` lines.
pub open spec fn selections(lines: Seq<Vec<OcrCandidate>>, n: nat) -> int
    decreases n,
{
    if n == 0 {
        1
    } else {
        selections(lines, (n - 1) as nat) * (lines[n - 1]@.len() + 1)
    }
}

/// No two readings are of the same stat.
pub open spec fn distinct_keys(subs: Seq<OcrCandidate>) -> bool {
    forall|i: int, j: int|
        0 <= i < j < subs.len() ==> (#[trigger] subs[i]).key@ != (#[trigger] subs[j]).key@
}

/// For each reading the roll counts that can be shown as its value.
pub open spec fn counts_for(subs: Seq<OcrCandidate>, rarity: i32, max_per: int) -> Seq<Seq<i32>> {
    subs.map_values(|c: OcrCandidate| roll_counts(c.key@, rarity, c.value, max_per, 8))
}

/// The roll counts with which the readings meet the plan, if they do.
pub open spec fn plan_rolls(plan: Plan, rarity: i32, subs: Seq<OcrCandidate>) -> Option<Seq<i32>> {
    if subs.len() == plan.expected && subs.len() >= 1 && distinct_keys(subs) {
        first_assignment(
            counts_for(subs, rarity, plan.rolls - (subs.len() - 1)),
            plan.rolls as int,
        )
    } else {
        None
    }
}

/// The readings meet the plan.
pub open spec fn fits(
    plan: Plan,
    rarity: i32,
    lines: Seq<Vec<OcrCandidate>>,
    sel: Seq<usize>,
) -> bool {
    plan_rolls(plan, rarity, chosen(lines, sel)) is Some
}

/// How many readings are not yet activated.
pub open spec fn inactive_count(subs: Seq<OcrCandidate>) -> int
    decreases subs.len(),
{
    if subs.len() == 0 {
        0
    } else {
        inactive_count(subs.drop_last()) + if subs.last().inactive {
            1int
        } else {
            0int
        }
    }
}

/// The result for readings that meet a plan. At level 0 the initial substats
/// are the activated ones.
pub open spec fn describes(
    result: SolverResult,
    plan: Plan,
    rarity: i32,
    subs: Seq<OcrCandidate>,
) -> bool {
    let rolls = plan_rolls(plan, rarity, subs)->0;
    let active = subs.len() - inactive_count(subs);
    &&& result.level == plan.level
    &&& result.substats@.len() == subs.len()
    &&& forall|i: int|
        0 <= i < subs.len() ==> {
            let r = #[trigger] result.substats@[i];
            &&& r.key@ == subs[i].key@
            &&& r.value == subs[i].value
            &&& r.inactive == subs[i].inactive
            &&& r.roll_count == rolls[i]
            &&& r.initial_value == initial_value_of(
                subs[i].key@,
                rarity,
                subs[i].value,
                rolls[i] as int,
            )
        }
    &&& result.initial_substat_count == if plan.level == 0 {
        if active < 1 {
            1
        } else {
            active
        }
    } else {
        plan.init as int
    }
    &&& result.total_rolls == result.initial_substat_count + plan.level as int / 4
}

/// The selection is the first that meets the plan.
pub open spec fn first_fit(
    plan: Plan,
    rarity: i32,
    lines: Seq<Vec<OcrCandidate>>,
    sel: Seq<usize>,
) -> bool {
    &&& selectable(lines, sel)
    &&& fits(plan, rarity, lines, sel)
    &&& forall|other: Seq<usize>| #[trigger]
        selectable(lines, other) && fits(plan, rarity, lines, other) ==> rank(
            lines,
            sel,
            lines.len(),
        ) <= rank(lines, other, lines.len())
}

/// No selection meets the plan.
pub open spec fn no_fit(plan: Plan, rarity: i32, lines: Seq<Vec<OcrCandidate>>) -> bool {
    forall|sel: Seq<usize>| #[trigger]
        selectable(lines, sel) ==> !fits(plan, rarity, lines, sel)
}

/// The result is that of the first plan which any selection meets, and of the
/// first selection that meets it; there is none where no selection meets any.
pub open spec fn solved_by(
    plans: Seq<Plan>,
    rarity: i32,
    lines: Seq<Vec<OcrCandidate>>,
    result: Option<SolverResult>,
) -> bool {
    match result {
        None => forall|i: int| 0 <= i < plans.len() ==> no_fit(#[trigger] plans[i], rarity, lines),
        Some(r) => exists|i: int, sel: Seq<usize>|
            #![trigger plans[i], selectable(lines, sel)]
            0 <= i < plans.len() && first_fit(plans[i], rarity, lines, sel) && describes(
                r,
                plans[i],
                rarity,
                chosen(lines, sel),
            ) && forall|j: int| 0 <= j < i ==> no_fit(#[trigger] plans[j], rarity, lines),
    }
}

proof fn lemma_rank_range(lines: Seq<Vec<OcrCandidate>>, sel: Seq<usize>, n: nat)
    requires
        selectable(lines, sel),
        n <= lines.len(),
    ensures
        0 <= rank(lines, sel, n) < selections(lines, n),
    decreases n,
{
    if n > 0 {
        lemma_rank_range(lines, sel, (n - 1) as nat);
        let r = rank(lines, sel, (n - 1) as nat);
        let s = selections(lines, (n - 1) as nat);
        let o = lines[n - 1]@.len() + 1;
        let d = sel[n - 1] as int;
        assert(d < o);
        assert(0 <= r * o + d < s * o) by (nonlinear_arith)
            requires
                0 <= r < s,
                0 <= d < o,
        ;
    }
}

proof fn lemma_rank_injective(
    lines: Seq<Vec<OcrCandidate>>,
    a: Seq<usize>,
    b: Seq<usize>,
    n: nat,
)
    requires
        selectable(lines, a),
        selectable(lines, b),
        n <= lines.len(),
        rank(lines, a, n) == rank(lines, b, n),
    ensures
        a.take(n as int) == b.take(n as int),
    decreases n,
{
    if n > 0 {
        let m = (n - 1) as nat;
        let ra = rank(lines, a, m);
        let rb = rank(lines, b, m);
        let o = lines[n - 1]@.len() + 1;
        let da = a[n - 1] as int;
        let db = b[n - 1] as int;
        assert(da < o && db < o);
        assert(ra == rb && da == db) by (nonlinear_arith)
            requires
                ra * o + da == rb * o + db,
                0 <= da < o,
                0 <= db < o,
        ;
        lemma_rank_injective(lines, a, b, m);
        assert(a.take(n as int) == a.take(m as int).push(a[n - 1]));
        assert(b.take(n as int) == b.take(m as int).push(b[n - 1]));
    }
}

proof fn lemma_rank_same_prefix(
    lines: Seq<Vec<OcrCandidate>>,
    a: Seq<usize>,
    b: Seq<usize>,
    n: nat,
)
    requires
        forall|i: int| 0 <= i < n ==> #[trigger] a[i] == b[i],
    ensures
        rank(lines, a, n) == rank(lines, b, n),
    decreases n,
{
    if n > 0 {
        lemma_rank_same_prefix(lines, a, b, (n - 1) as nat);
        assert(a[n - 1] == b[n - 1]);
    }
}

/// All digits from `from` on are at their end in `a` and at their start in `b`.
spec fn rolled_over(
    lines: Seq<Vec<OcrCandidate>>,
    a: Seq<usize>,
    b: Seq<usize>,
    from: int,
) -> bool {
    forall|i: int| from <= i < lines.len() ==> #[trigger] a[i] == lines[i]@.len() && b[i] == 0
}

proof fn lemma_rank_carry(
    lines: Seq<Vec<OcrCandidate>>,
    a: Seq<usize>,
    b: Seq<usize>,
    from: nat,
    n: nat,
)
    requires
        from <= n <= lines.len(),
        rolled_over(lines, a, b, from as int),
        rank(lines, b, from) == rank(lines, a, from) + 1,
    ensures
        rank(lines, b, n) == rank(lines, a, n) + 1,
    decreases n - from,
{
    if n > from {
        let m = (n - 1) as nat;
        lemma_rank_carry(lines, a, b, from, m);
        let ra = rank(lines, a, m);
        let o = lines[n - 1]@.len() + 1;
        assert(a[n - 1] == lines[n - 1]@.len() && b[n - 1] == 0);
        assert((ra + 1) * o == ra * o + o) by (nonlinear_arith);
    }
}

proof fn lemma_rank_last(lines: Seq<Vec<OcrCandidate>>, sel: Seq<usize>, n: nat)
    requires
        n <= lines.len(),
        forall|i: int| 0 <= i < n ==> #[trigger] sel[i] == lines[i]@.len(),
    ensures
        rank(lines, sel, n) == selections(lines, n) - 1,
    decreases n,
{
    if n > 0 {
        let m = (n - 1) as nat;
        lemma_rank_last(lines, sel, m);
        let s = selections(lines, m);
        let o = lines[n - 1]@.len() + 1;
        assert(sel[n - 1] == lines[n - 1]@.len());
        assert((s - 1) * o == s * o - o) by (nonlinear_arith);
    }
}

/// Goes on to the next selection, the last line varying fastest. Tells whether
/// there was one.
pub fn advance_selection(selection: &mut Vec<usize>, lines: &Vec<Vec<OcrCandidate>>) -> (more: bool)
    requires
        selectable(lines@, old(selection)@),
    ensures
        selectable(lines@, final(selection)@),
        more ==> rank(lines@, final(selection)@, lines@.len()) == rank(
            lines@,
            old(selection)@,
            lines@.len(),
        ) + 1,
        !more ==> rank(lines@, old(selection)@, lines@.len()) == selections(lines@, lines@.len())
            - 1,
{
    let ghost start = selection@;
    let mut i: usize = selection.len();
    while i > 0
        invariant
            i <= lines@.len(),
            start == old(selection)@,
            selectable(lines@, start),
            selectable(lines@, selection@),
            forall|j: int| 0 <= j < i ==> #[trigger] selection@[j] == start[j],
            rolled_over(lines@, start, selection@, i as int),
        decreases i,
    {
        i = i - 1;
        assert(rolled_over(lines@, start, selection@, i + 1));
        assert(selection@[i as int] == start[i as int]);
        assert(lines@[i as int]@.len() == lines[i as int].len());
        if selection[i] < lines[i].len() {
            let ghost before = selection@;
            let next: usize = selection[i] + 1;
            selection.set(i, next);
            proof {
                assert(selectable(lines@, selection@)) by {
                    assert forall|j: int| 0 <= j < lines@.len() implies #[trigger] selection@[j]
                        <= lines@[j]@.len() by {
                        assert(before[j] <= lines@[j]@.len());
                    }
                }
                lemma_rank_same_prefix(lines@, start, selection@, i as nat);
                assert(rolled_over(lines@, start, selection@, i + 1)) by {
                    assert forall|j: int| i + 1 <= j < lines@.len() implies #[trigger] start[j]
                        == lines@[j]@.len() && selection@[j] == 0 by {
                        assert(start[j] == lines@[j]@.len());
                        assert(before[j] == 0);
                    }
                }
                lemma_rank_carry(lines@, start, selection@, (i + 1) as nat, lines@.len());
            }
            return true;
        }
        let ghost before = selection@;
        selection.set(i, 0);
        proof {
            assert forall|j: int| 0 <= j < lines@.len() implies #[trigger] selection@[j]
                <= lines@[j]@.len() by {
                assert(before[j] <= lines@[j]@.len());
            }
            assert forall|j: int| i <= j < lines@.len() implies #[trigger] start[j]
                == lines@[j]@.len() && selection@[j] == 0 by {
                assert(start[j] <= lines@[j]@.len());
            }
        }
    }
    proof {
        lemma_rank_last(lines@, start, lines@.len());
    }
    false
}

/// The readings chosen on the lines.
fn pick(lines: &Vec<Vec<OcrCandidate>>, selection: &Vec<usize>) -> (subs: Vec<OcrCandidate>)
    requires
        selectable(lines@, selection@),
    ensures
        subs@ == chosen(lines@, selection@),
{
    let mut subs: Vec<OcrCandidate> = Vec::new();
    let mut i: usize = 0;
    while i < lines.len()
        invariant
            i <= lines@.len(),
            selectable(lines@, selection@),
            subs@ == chosen(lines@.take(i as int), selection@.take(i as int)),
        decreases lines@.len() - i,
    {
        let k: usize = selection[i];
        assert(selection@[i as int] <= lines@[i as int]@.len());
        proof {
            assert(lines@.take(i + 1).drop_last() == lines@.take(i as int));
            assert(selection@.take(i + 1).drop_last() == selection@.take(i as int));
        }
        if k > 0 {
            let c = &lines[i][k - 1];
            let copy = OcrCandidate { key: c.key.clone(), value: c.value, inactive: c.inactive };
            assert(copy == *c);
            subs.push(copy);
        }
        i = i + 1;
    }
    assert(lines@.take(i as int) == lines@);
    assert(selection@.take(i as int) == selection@);
    subs
}

/// Whether no two readings are of the same stat.
fn all_keys_differ(subs: &Vec<OcrCandidate>) -> (yes: bool)
    ensures
        yes == distinct_keys(subs@),
{
    let mut j: usize = 0;
    while j < subs.len()
        invariant
            j <= subs@.len(),
            forall|a: int, b: int|
                0 <= a < b < j ==> (#[trigger] subs@[a]).key@ != (#[trigger] subs@[b]).key@,
        decreases subs@.len() - j,
    {
        let mut i: usize = 0;
        while i < j
            invariant
                i <= j < subs@.len(),
                forall|a: int| 0 <= a < i ==> (#[trigger] subs@[a]).key@ != subs@[j as int].key@,
            decreases j - i,
        {
            if same_text(subs[i].key.as_str(), subs[j].key.as_str()) {
                return false;
            }
            i = i + 1;
        }
        j = j + 1;
    }
    true
}

proof fn lemma_roll_counts_range(
    key: Seq<char>,
    rarity: i32,
    value: i64,
    max_per: int,
    limit: nat,
    j: int,
)
    requires
        limit <= 8,
        0 <= j < roll_counts(key, rarity, value, max_per, limit).len(),
    ensures
        1 <= roll_counts(key, rarity, value, max_per, limit)[j] <= limit,
        possible_rolls(
            key,
            rarity,
            value,
            roll_counts(key, rarity, value, max_per, limit)[j] as int,
        ),
    decreases limit,
{
    let fewer = roll_counts(key, rarity, value, max_per, (limit - 1) as nat);
    if j < fewer.len() {
        lemma_roll_counts_range(key, rarity, value, max_per, (limit - 1) as nat, j);
    }
}

/// How many readings are not yet activated.
fn count_inactive(subs: &Vec<OcrCandidate>) -> (count: usize)
    ensures
        count == inactive_count(subs@),
        count <= subs@.len(),
{
    let mut count: usize = 0;
    let mut i: usize = 0;
    while i < subs.len()
        invariant
            i <= subs@.len(),
            count <= i,
            count == inactive_count(subs@.take(i as int)),
        decreases subs@.len() - i,
    {
        assert(subs@.take(i + 1).drop_last() == subs@.take(i as int));
        if subs[i].inactive {
            count = count + 1;
        }
        i = i + 1;
    }
    assert(subs@.take(i as int) == subs@);
    count
}

/// The result of a plan for the chosen readings, where they meet it.
fn try_plan(plan: &Plan, rarity: i32, subs: &Vec<OcrCandidate>) -> (result: Option<SolverResult>)
    requires
        0 <= plan.level <= 20,
        0 <= plan.init <= 5,
        0 <= plan.expected <= 5,
        0 <= plan.rolls <= 10,
    ensures
        match plan_rolls(*plan, rarity, subs@) {
            Some(_) => result matches Some(r) && describes(r, *plan, rarity, subs@),
            None => result is None,
        },
{
    if subs.len() != plan.expected as usize || subs.len() == 0 || !all_keys_differ(subs) {
        return None;
    }
    let n: i32 = subs.len() as i32;
    let max_per: i32 = plan.rolls - (n - 1);
    let mut valid_counts: Vec<Vec<i32>> = Vec::new();
    let mut i: usize = 0;
    while i < subs.len()
        invariant
            i <= subs@.len(),
            valid_counts@.len() == i,
            forall|k: int|
                0 <= k < i ==> (#[trigger] valid_counts@[k])@ == roll_counts(
                    subs@[k].key@,
                    rarity,
                    subs@[k].value,
                    max_per as int,
                    8,
                ),
        decreases subs@.len() - i,
    {
        valid_counts.push(
            valid_roll_counts(subs[i].key.as_str(), rarity, subs[i].value, max_per),
        );
        i = i + 1;
    }
    let ghost lists = counts_for(subs@, rarity, max_per as int);
    proof {
        assert(lists_of(valid_counts@) =~= lists);
        assert forall|k: int, j: int|
            0 <= k < valid_counts@.len() && 0 <= j < valid_counts@[k]@.len() implies 1
            <= #[trigger] valid_counts@[k]@[j] <= 8 by {
            lemma_roll_counts_range(
                subs@[k].key@,
                rarity,
                subs@[k].value,
                max_per as int,
                8,
                j,
            );
        }
    }
    let rolls = match find_assignment(&valid_counts, plan.rolls) {
        Some(a) => a,
        None => {
            return None;
        },
    };
    proof {
        assignment_is_sound(lists, plan.rolls as int);
    }
    let mut substats: Vec<SolvedSubstat> = Vec::new();
    let mut i: usize = 0;
    while i < subs.len()
        invariant
            i <= subs@.len(),
            substats@.len() == i,
            lists == counts_for(subs@, rarity, max_per as int),
            is_assignment(lists, plan.rolls as int, rolls@),
            forall|k: int|
                0 <= k < i ==> {
                    let r = #[trigger] substats@[k];
                    &&& r.key@ == subs@[k].key@
                    &&& r.value == subs@[k].value
                    &&& r.inactive == subs@[k].inactive
                    &&& r.roll_count == rolls@[k]
                    &&& r.initial_value == initial_value_of(
                        subs@[k].key@,
                        rarity,
                        subs@[k].value,
                        rolls@[k] as int,
                    )
                },
        decreases subs@.len() - i,
    {
        let count: i32 = rolls[i];
        proof {
            assert(lists[i as int].contains(rolls@[i as int]));
            let j = choose|j: int| 0 <= j < lists[i as int].len() && lists[i as int][j] == count;
            lemma_roll_counts_range(
                subs@[i as int].key@,
                rarity,
                subs@[i as int].value,
                max_per as int,
                8,
                j,
            );
        }
        let initial = compute_initial_value(subs[i].key.as_str(), rarity, subs[i].value, count);
        substats.push(
            SolvedSubstat {
                key: subs[i].key.clone(),
                value: subs[i].value,
                roll_count: count,
                initial_value: initial,
                inactive: subs[i].inactive,
            },
        );
        i = i + 1;
    }
    let inactive: usize = count_inactive(subs);
    let active: i32 = n - inactive as i32;
    let init: i32 = if plan.level == 0 {
        if active < 1 {
            1
        } else {
            active
        }
    } else {
        plan.init
    };
    Some(
        SolverResult {
            level: plan.level,
            substats,
            initial_substat_count: init,
            total_rolls: init + plan.level / 4,
        },
    )
}

/// The result of the first selection that meets a plan.
fn solve_plan(plan: &Plan, rarity: i32, lines: &Vec<Vec<OcrCandidate>>) -> (result: Option<
    SolverResult,
>)
    requires
        0 <= plan.level <= 20,
        0 <= plan.init <= 5,
        0 <= plan.expected <= 5,
        0 <= plan.rolls <= 10,
    ensures
        match result {
            Some(r) => exists|sel: Seq<usize>| #[trigger]
                selectable(lines@, sel) && first_fit(*plan, rarity, lines@, sel) && describes(
                    r,
                    *plan,
                    rarity,
                    chosen(lines@, sel),
                ),
            None => no_fit(*plan, rarity, lines@),
        },
{
    let mut selection: Vec<usize> = Vec::new();
    let mut i: usize = 0;
    while i < lines.len()
        invariant
            i <= lines@.len(),
            selection@.len() == i,
            forall|k: int| 0 <= k < i ==> #[trigger] selection@[k] == 0,
        decreases lines@.len() - i,
    {
        selection.push(0);
        i = i + 1;
    }
    let ghost n = lines@.len();
    proof {
        assert(rank(lines@, selection@, n) == 0) by {
            lemma_rank_zero(lines@, selection@, n);
        }
        lemma_rank_range(lines@, selection@, n);
        assert forall|sel: Seq<usize>| #[trigger] selectable(lines@, sel) implies rank(
            lines@,
            sel,
            n,
        ) >= 0 by {
            lemma_rank_range(lines@, sel, n);
        }
    }
    loop
        invariant
            n == lines@.len(),
            0 <= plan.level <= 20,
            0 <= plan.init <= 5,
            0 <= plan.expected <= 5,
            0 <= plan.rolls <= 10,
            selectable(lines@, selection@),
            0 <= rank(lines@, selection@, n) < selections(lines@, n),
            forall|sel: Seq<usize>| #[trigger]
                selectable(lines@, sel) && rank(lines@, sel, n) < rank(lines@, selection@, n)
                    ==> !fits(*plan, rarity, lines@, sel),
        decreases selections(lines@, n) - rank(lines@, selection@, n),
    {
        let subs = pick(lines, &selection);
        let attempt = try_plan(plan, rarity, &subs);
        if attempt.is_some() {
            assert(first_fit(*plan, rarity, lines@, selection@));
            return attempt;
        }
        let ghost before = selection@;
        let more = advance_selection(&mut selection, lines);
        proof {
            assert forall|sel: Seq<usize>| #[trigger]
                selectable(lines@, sel) && rank(lines@, sel, n) <= rank(
                    lines@,
                    before,
                    n,
                ) implies !fits(*plan, rarity, lines@, sel) by {
                if rank(lines@, sel, n) == rank(lines@, before, n) {
                    lemma_rank_injective(lines@, sel, before, n);
                    assert(sel.take(n as int) == sel);
                    assert(before.take(n as int) == before);
                }
            }
            lemma_rank_range(lines@, selection@, n);
        }
        if !more {
            proof {
                assert forall|sel: Seq<usize>| #[trigger] selectable(lines@, sel) implies !fits(
                    *plan,
                    rarity,
                    lines@,
                    sel,
                ) by {
                    lemma_rank_range(lines@, sel, n);
                }
            }
            return None;
        }
    }
}

proof fn lemma_rank_zero(lines: Seq<Vec<OcrCandidate>>, sel: Seq<usize>, n: nat)
    requires
        forall|k: int| 0 <= k < n ==> #[trigger] sel[k] == 0,
    ensures
        rank(lines, sel, n) == 0,
    decreases n,
{
    if n > 0 {
        lemma_rank_zero(lines, sel, (n - 1) as nat);
        assert(sel[n - 1] == 0);
    }
}

/// A plan of the sizes that artifacts have.
spec fn plan_in_range(plan: Plan) -> bool {
    0 <= plan.level <= 20 && 2 <= plan.init <= 4 && 0 <= plan.expected <= 5 && 0 <= plan.rolls <= 9
}

/// Appends the plans for a level and a number of initial substats.
fn push_plans(plans: &mut Vec<Plan>, level: i32, rarity: i32, init: i32)
    requires
        0 <= level <= 20,
        2 <= init <= 4,
        rarity != 5 ==> init <= 3,
        forall|i: int| 0 <= i < old(plans)@.len() ==> plan_in_range(#[trigger] old(plans)@[i]),
    ensures
        final(plans)@ == old(plans)@ + plans_for_init(level, rarity, init),
        forall|i: int| 0 <= i < final(plans)@.len() ==> plan_in_range(#[trigger] final(plans)@[i]),
{
    let upgrades: i32 = level / 4;
    let adds: i32 = if 4 - init < upgrades {
        4 - init
    } else {
        upgrades
    };
    let most: i32 = if rarity == 5 {
        4
    } else {
        3
    };
    let ghost start = plans@;
    if level == 0 && init < most {
        plans.push(Plan { level, init, expected: init + adds + 1, rolls: init + upgrades + 1 });
    }
    plans.push(Plan { level, init, expected: init + adds, rolls: init + upgrades });
    assert(plans@ =~= start + plans_for_init(level, rarity, init));
}

/// The plans for some readings of the level, in their order.
fn make_plans(levels: &Vec<i32>, rarity: i32) -> (plans: Vec<Plan>)
    ensures
        plans@ == plans_for(levels@, rarity),
        forall|i: int| 0 <= i < plans@.len() ==> plan_in_range(#[trigger] plans@[i]),
{
    let mut plans: Vec<Plan> = Vec::new();
    let max_level: i32 = if rarity == 5 {
        20
    } else {
        16
    };
    let more: i32 = if rarity == 5 {
        4
    } else {
        3
    };
    let mut i: usize = 0;
    while i < levels.len()
        invariant
            i <= levels@.len(),
            max_level == max_level_of(rarity),
            more == if rarity == 5 {
                4i32
            } else {
                3i32
            },
            plans@ == plans_for(levels@.take(i as int), rarity),
            forall|k: int| 0 <= k < plans@.len() ==> plan_in_range(#[trigger] plans@[k]),
        decreases levels@.len() - i,
    {
        let raw: i32 = levels[i];
        let level: i32 = if raw < 0 {
            0
        } else if raw > max_level {
            max_level
        } else {
            raw
        };
        assert(levels@.take(i + 1).drop_last() == levels@.take(i as int));
        let ghost start = plans@;
        if level == 0 {
            push_plans(&mut plans, level, rarity, more);
            push_plans(&mut plans, level, rarity, more - 1);
        } else {
            push_plans(&mut plans, level, rarity, more - 1);
            push_plans(&mut plans, level, rarity, more);
        }
        assert(plans@ =~= start + plans_for_level(level, rarity));
        i = i + 1;
    }
    assert(levels@.take(i as int) == levels@);
    plans
}

/// Tries the readings of the level in their order.
fn solve_with_levels(levels: &Vec<i32>, rarity: i32, lines: &Vec<Vec<OcrCandidate>>) -> (result:
    Option<SolverResult>)
    ensures
        solved_by(plans_for(levels@, rarity), rarity, lines@, result),
{
    let plans = make_plans(levels, rarity);
    let mut i: usize = 0;
    while i < plans.len()
        invariant
            i <= plans@.len(),
            plans@ == plans_for(levels@, rarity),
            forall|k: int| 0 <= k < plans@.len() ==> plan_in_range(#[trigger] plans@[k]),
            forall|k: int| 0 <= k < i ==> no_fit(#[trigger] plans@[k], rarity, lines@),
        decreases plans@.len() - i,
    {
        assert(plan_in_range(plans@[i as int]));
        let result = solve_plan(&plans[i], rarity, lines);
        if result.is_some() {
            return result;
        }
        i = i + 1;
    }
    None
}

/// The values of `all`, each once and in increasing order.
pub open spec fn ascending_set(sorted: Seq<i32>, all: Seq<i32>) -> bool {
    &&& forall|i: int, j: int| 0 <= i < j < sorted.len() ==> sorted[i] < sorted[j]
    &&& forall|x: i32| sorted.contains(x) <==> #[trigger] all.contains(x)
}

/// The readings below 10 raised by 10, as far as an artifact can have such a
/// level and it was not read itself.
pub open spec fn raised_levels(levels: Seq<i32>, rarity: i32, n: nat) -> Seq<i32>
    decreases n,
{
    if n == 0 {
        Seq::empty()
    } else {
        let l = levels[n - 1];
        let earlier = raised_levels(levels, rarity, (n - 1) as nat);
        if 0 <= l < 10 && l + 10 <= max_level_of(rarity) && !levels.contains((l + 10) as i32) {
            earlier.push((l + 10) as i32)
        } else {
            earlier
        }
    }
}

/// A result leaves it open whether the tens digit of the level was lost.
pub open spec fn in_doubt(result: Option<SolverResult>, lines: nat) -> bool {
    match result {
        None => true,
        Some(r) => r.substats@.len() < lines && r.level < 10,
    }
}

/// The result for the raised levels wins where it uses more substats.
pub open spec fn better(
    first: Option<SolverResult>,
    second: Option<SolverResult>,
) -> Option<SolverResult> {
    match (first, second) {
        (None, _) => second,
        (Some(a), Some(b)) => if b.substats@.len() > a.substats@.len() {
            second
        } else {
            first
        },
        (Some(_), None) => first,
    }
}

/// What the solver makes of its input.
pub open spec fn solution(input: SolverInput, result: Option<SolverResult>) -> bool {
    let lines = input.substat_candidates@;
    let rarity = input.rarity;
    if rarity < 4 || rarity > 5 {
        result is None
    } else {
        exists|levels: Seq<i32>, first: Option<SolverResult>|
            {
                &&& #[trigger] ascending_set(levels, input.level_candidates@)
                &&& #[trigger] solved_by(plans_for(levels, rarity), rarity, lines, first)
                &&& if in_doubt(first, lines.len()) {
                    exists|second: Option<SolverResult>| #[trigger]
                        solved_by(
                            plans_for(raised_levels(levels, rarity, levels.len()), rarity),
                            rarity,
                            lines,
                            second,
                        ) && result == better(first, second)
                } else {
                    result == first
                }
            }
    }
}

/// The values, each once and in increasing order.
fn sort_distinct(all: &Vec<i32>) -> (sorted: Vec<i32>)
    ensures
        ascending_set(sorted@, all@),
{
    let mut sorted: Vec<i32> = Vec::new();
    let mut i: usize = 0;
    assert(forall|x: i32| !all@.take(0).contains(x));
    assert(forall|x: i32| !sorted@.contains(x));
    while i < all.len()
        invariant
            i <= all@.len(),
            ascending_set(sorted@, all@.take(i as int)),
        decreases all@.len() - i,
    {
        let x: i32 = all[i];
        let mut k: usize = 0;
        while k < sorted.len() && sorted[k] < x
            invariant
                k <= sorted@.len(),
                forall|j: int| 0 <= j < k ==> #[trigger] sorted@[j] < x,
            decreases sorted@.len() - k,
        {
            k = k + 1;
        }
        let ghost before = sorted@;
        proof {
            assert forall|y: i32| #[trigger] all@.take(i + 1).contains(y) == (all@.take(
                i as int,
            ).contains(y) || y == x) by {
                assert(all@.take(i + 1) == all@.take(i as int).push(x));
                if all@.take(i as int).contains(y) {
                    let j = choose|j: int| 0 <= j < i && all@.take(i as int)[j] == y;
                    assert(all@.take(i + 1)[j] == y);
                }
                if y == x {
                    assert(all@.take(i + 1)[i as int] == x);
                }
                if all@.take(i + 1).contains(y) && y != x {
                    let s = all@.take(i + 1);
                    let j = choose|j: int| 0 <= j < s.len() && s[j] == y;
                    assert(j != i);
                    assert(all@.take(i as int)[j] == y);
                }
            }
        }
        if k == sorted.len() || sorted[k] != x {
            sorted.insert(k, x);
            proof {
                assert(sorted@ == before.insert(k as int, x));
                assert forall|y: i32| sorted@.contains(y) <==> #[trigger] all@.take(
                    i + 1,
                ).contains(y) by {
                    if before.contains(y) {
                        let j = choose|j: int| 0 <= j < before.len() && before[j] == y;
                        if j < k {
                            assert(sorted@[j] == y);
                        } else {
                            assert(sorted@[j + 1] == y);
                        }
                    }
                    if y == x {
                        assert(sorted@[k as int] == y);
                    }
                    if sorted@.contains(y) && y != x {
                        let j = choose|j: int| 0 <= j < sorted@.len() && sorted@[j] == y;
                        if j < k {
                            assert(before[j] == y);
                        } else {
                            assert(before[j - 1] == y);
                        }
                    }
                    assert(before.contains(y) <==> all@.take(i as int).contains(y));
                }
                assert forall|a: int, b: int| 0 <= a < b < sorted@.len() implies sorted@[a]
                    < sorted@[b] by {
                    if k < before.len() {
                        assert(before[k as int] > x);
                    }
                }
            }
        } else {
            proof {
                assert(before.contains(x)) by {
                    assert(before[k as int] == x);
                }
                assert forall|y: i32| sorted@.contains(y) <==> #[trigger] all@.take(
                    i + 1,
                ).contains(y) by {
                    assert(before.contains(y) <==> all@.take(i as int).contains(y));
                }
            }
        }
        i = i + 1;
    }
    assert(all@.take(i as int) == all@);
    sorted
}

/// Whether the value is among the levels.
fn has_level(levels: &Vec<i32>, x: i32) -> (yes: bool)
    ensures
        yes == levels@.contains(x),
{
    let mut i: usize = 0;
    while i < levels.len()
        invariant
            i <= levels@.len(),
            forall|j: int| 0 <= j < i ==> levels@[j] != x,
        decreases levels@.len() - i,
    {
        if levels[i] == x {
            return true;
        }
        i = i + 1;
    }
    false
}

/// Finds the readings that the roll rules allow together, and the rolls that
/// each substat took. Readings of the level are tried from the lowest on; where
/// the outcome leaves it open whether the tens digit of the level was lost, the
/// levels raised by ten are tried as well.
pub fn solve(input: &SolverInput) -> (result: Option<SolverResult>)
    ensures
        solution(*input, result),
{
    if input.rarity < 4 || input.rarity > 5 {
        return None;
    }
    let max_level: i32 = if input.rarity == 5 {
        20
    } else {
        16
    };
    let levels = sort_distinct(&input.level_candidates);
    let lines = &input.substat_candidates;
    let first = solve_with_levels(&levels, input.rarity, lines);
    let doubt = match &first {
        None => true,
        Some(r) => r.substats.len() < lines.len() && r.level < 10,
    };
    if !doubt {
        return first;
    }
    let mut raised: Vec<i32> = Vec::new();
    let mut i: usize = 0;
    while i < levels.len()
        invariant
            i <= levels@.len(),
            max_level == max_level_of(input.rarity),
            raised@ == raised_levels(levels@, input.rarity, i as nat),
        decreases levels@.len() - i,
    {
        let l: i32 = levels[i];
        if 0 <= l && l < 10 && l + 10 <= max_level && !has_level(&levels, l + 10) {
            raised.push(l + 10);
        }
        i = i + 1;
    }
    let second = solve_with_levels(&raised, input.rarity, lines);
    let ghost a = first;
    let ghost b = second;
    let result = match (first, second) {
        (None, second) => second,
        (Some(r), Some(fb)) => {
            if fb.substats.len() > r.substats.len() {
                Some(fb)
            } else {
                Some(r)
            }
        },
        (Some(r), None) => Some(r),
    };
    assert(result == better(a, b));
    result
}

/// Whether substats that were read in full are consistent with the roll rules.
pub fn validate_substats(rarity: i32, level: i32, substats: &[(&str, i64)]) -> (valid: bool)
    ensures
        valid == consistent(rarity, level, substat_readings(substats@)),
{
    if rarity < 4 || rarity > 5 || substats.len() == 0 {
        return false;
    }
    let mut lines: Vec<Vec<OcrCandidate>> = Vec::new();
    let mut i: usize = 0;
    while i < substats.len()
        invariant
            i <= substats@.len(),
            lines@.len() == i,
            forall|k: int|
                0 <= k < i ==> (#[trigger] lines@[k])@.len() == 1 && lines@[k]@[0].key@
                    == substats@[k].0@ && lines@[k]@[0].value == substats@[k].1
                    && !lines@[k]@[0].inactive,
        decreases substats@.len() - i,
    {
        let c = OcrCandidate {
            key: copy_of(substats[i].0),
            value: substats[i].1,
            inactive: false,
        };
        let mut one: Vec<OcrCandidate> = Vec::new();
        one.push(c);
        lines.push(one);
        i = i + 1;
    }
    let mut levels: Vec<i32> = Vec::new();
    levels.push(level);
    let input = SolverInput { rarity, level_candidates: levels, substat_candidates: lines };
    let result = solve(&input);
    proof {
        assert(levels@ == seq![level]);
        let read = readings(lines@);
        let single = single_lines(substat_readings(substats@));
        assert forall|k: int| 0 <= k < lines@.len() implies #[trigger] read[k] == single[k] by {
            assert(lines@[k]@.len() == 1);
            assert(read[k] =~= single[k]);
        }
        assert(read =~= single);
        solved_where_solvable(input, result);
    }
    result.is_some()
}

/// The substats by their keys and values.
pub open spec fn substat_readings(substats: Seq<(&str, i64)>) -> Seq<Reading> {
    Seq::new(substats.len(), |i: int| (substats[i].0@, substats[i].1))
}

/// What every plan keeps to: the level is one an artifact can have, above level
/// 0 the rolls are the initial ones and one per four levels, and at level 0
/// there is one roll per substat.
pub open spec fn plan_rules(plan: Plan, rarity: i32) -> bool {
    &&& 0 <= plan.level <= max_level_of(rarity)
    &&& plan.level > 0 ==> plan.rolls == plan.init + plan.level as int / 4
    &&& plan.level == 0 ==> plan.rolls == plan.expected
}

proof fn lemma_plans_keep_rules(levels: Seq<i32>, rarity: i32, i: int)
    requires
        0 <= i < plans_for(levels, rarity).len(),
    ensures
        plan_rules(plans_for(levels, rarity)[i], rarity),
    decreases levels.len(),
{
    if levels.len() > 0 {
        let earlier = plans_for(levels.drop_last(), rarity);
        if i < earlier.len() {
            lemma_plans_keep_rules(levels.drop_last(), rarity, i);
        } else {
            let level = clamped(levels.last(), rarity);
            assert(plans_for(levels, rarity)[i] == plans_for_level(level, rarity)[i
                - earlier.len()]);
        }
    }
}

/// The roll counts of a result.
pub open spec fn result_rolls(result: SolverResult) -> Seq<i32> {
    result.substats@.map_values(|s: SolvedSubstat| s.roll_count)
}

/// What holds of every result: its level is one an artifact can have, no stat
/// occurs twice, every substat can be shown with its value after the rolls it
/// is said to have taken, and the rolls add up: to the total above level 0, and
/// to one per substat at level 0, where the total counts the activated ones.
pub open spec fn obeys_rules(result: SolverResult, rarity: i32) -> bool {
    let n = result.substats@.len();
    &&& 0 <= result.level <= max_level_of(rarity)
    &&& n >= 1
    &&& forall|i: int, j: int|
        0 <= i < j < n ==> (#[trigger] result.substats@[i]).key@ != (
        #[trigger] result.substats@[j]).key@
    &&& forall|i: int|
        0 <= i < n ==> {
            let s = #[trigger] result.substats@[i];
            possible_rolls(s.key@, rarity, s.value, s.roll_count as int)
        }
    &&& sum_of(result_rolls(result)) == if result.level > 0 {
        result.total_rolls as int
    } else {
        n as int
    }
}

proof fn lemma_solved_obeys(
    levels: Seq<i32>,
    rarity: i32,
    lines: Seq<Vec<OcrCandidate>>,
    result: SolverResult,
)
    requires
        solved_by(plans_for(levels, rarity), rarity, lines, Some(result)),
    ensures
        obeys_rules(result, rarity),
{
    let plans = plans_for(levels, rarity);
    let (i, sel) = choose|i: int, sel: Seq<usize>|
        #![trigger plans[i], selectable(lines, sel)]
        0 <= i < plans.len() && first_fit(plans[i], rarity, lines, sel) && describes(
            result,
            plans[i],
            rarity,
            chosen(lines, sel),
        ) && forall|j: int| 0 <= j < i ==> no_fit(#[trigger] plans[j], rarity, lines);
    let plan = plans[i];
    let subs = chosen(lines, sel);
    lemma_plans_keep_rules(levels, rarity, i);
    let max_per = plan.rolls - (subs.len() - 1);
    let lists = counts_for(subs, rarity, max_per);
    assignment_is_sound(lists, plan.rolls as int);
    let rolls = plan_rolls(plan, rarity, subs)->0;
    assert(result_rolls(result) =~= rolls);
    assert forall|k: int| 0 <= k < subs.len() implies {
        let s = #[trigger] result.substats@[k];
        possible_rolls(s.key@, rarity, s.value, s.roll_count as int)
    } by {
        assert(lists[k].contains(rolls[k]));
        let j = choose|j: int| 0 <= j < lists[k].len() && lists[k][j] == rolls[k];
        lemma_roll_counts_range(subs[k].key@, rarity, subs[k].value, max_per, 8, j);
    }
    assert forall|a: int, b: int| 0 <= a < b < result.substats@.len() implies (
    #[trigger] result.substats@[a]).key@ != (#[trigger] result.substats@[b]).key@ by {
        assert(subs[a].key@ != subs[b].key@);
    }
}

/// Whatever the solver finds obeys the roll rules.
pub proof fn solutions_obey_rules(input: SolverInput, result: SolverResult)
    requires
        solution(input, Some(result)),
    ensures
        4 <= input.rarity <= 5,
        obeys_rules(result, input.rarity),
{
    let lines = input.substat_candidates@;
    let rarity = input.rarity;
    let (levels, first) = choose|levels: Seq<i32>, first: Option<SolverResult>|
        {
            &&& #[trigger] ascending_set(levels, input.level_candidates@)
            &&& #[trigger] solved_by(plans_for(levels, rarity), rarity, lines, first)
            &&& if in_doubt(first, lines.len()) {
                exists|second: Option<SolverResult>| #[trigger]
                    solved_by(
                        plans_for(raised_levels(levels, rarity, levels.len()), rarity),
                        rarity,
                        lines,
                        second,
                    ) && Some(result) == better(first, second)
            } else {
                Some(result) == first
            }
        };
    if first == Some(result) {
        lemma_solved_obeys(levels, rarity, lines, result);
    } else {
        let raised = raised_levels(levels, rarity, levels.len());
        lemma_solved_obeys(raised, rarity, lines, result);
    }
}

/// Two results for the same plans and readings are the same.
pub proof fn solved_result_is_unique(
    plans: Seq<Plan>,
    rarity: i32,
    lines: Seq<Vec<OcrCandidate>>,
    a: SolverResult,
    b: SolverResult,
)
    requires
        solved_by(plans, rarity, lines, Some(a)),
        solved_by(plans, rarity, lines, Some(b)),
    ensures
        a.level == b.level,
        a.initial_substat_count == b.initial_substat_count,
        a.total_rolls == b.total_rolls,
        a.substats@.len() == b.substats@.len(),
        forall|k: int|
            #![trigger a.substats@[k]]
            #![trigger b.substats@[k]]
            0 <= k < a.substats@.len() ==> {
                let x = a.substats@[k];
                let y = b.substats@[k];
                x.key@ == y.key@ && x.value == y.value && x.roll_count == y.roll_count
                    && x.initial_value == y.initial_value && x.inactive == y.inactive
            },
{
    let (i, s) = choose|i: int, sel: Seq<usize>|
        #![trigger plans[i], selectable(lines, sel)]
        0 <= i < plans.len() && first_fit(plans[i], rarity, lines, sel) && describes(
            a,
            plans[i],
            rarity,
            chosen(lines, sel),
        ) && forall|j: int| 0 <= j < i ==> no_fit(#[trigger] plans[j], rarity, lines);
    let (k, t) = choose|i: int, sel: Seq<usize>|
        #![trigger plans[i], selectable(lines, sel)]
        0 <= i < plans.len() && first_fit(plans[i], rarity, lines, sel) && describes(
            b,
            plans[i],
            rarity,
            chosen(lines, sel),
        ) && forall|j: int| 0 <= j < i ==> no_fit(#[trigger] plans[j], rarity, lines);
    assert(selectable(lines, s) && selectable(lines, t));
    assert(i == k) by {
        if i < k {
            assert(no_fit(plans[i], rarity, lines));
        }
        if k < i {
            assert(no_fit(plans[k], rarity, lines));
        }
    }
    let n = lines.len();
    assert(rank(lines, s, n) == rank(lines, t, n));
    lemma_rank_injective(lines, s, t, n);
    assert(s.take(n as int) == s);
    assert(t.take(n as int) == t);
}

} // verus!
