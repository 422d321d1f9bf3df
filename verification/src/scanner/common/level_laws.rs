//! What holds of levels and caps that are read from texts.
use crate::number::{digits_value, i32_of};
use crate::scanner::character::level::{
    cap_above, character_level, doubtful_level, level_caps, lowest_level,
};
use crate::scanner::common::level_text::{
    apart, digits_of, nearest_among, nearest_cap, noise_among, split_at, split_before,
    split_digits, split_noisy,
};
use crate::scanner::weapon::scanner::{
    level_under, refinement_in, weapon_caps, weapon_level,
};
use vstd::prelude::*;

verus! {

/// The cap of a weapon that is read as a number: the nearest of 20 and the tens
/// from 40 to 90, the lower one of two that are as near.
pub open spec fn weapon_cap(raw: int) -> int {
    if raw <= 30 {
        20
    } else if raw <= 45 {
        40
    } else if raw > 85 {
        90
    } else {
        (raw + 4) / 10 * 10
    }
}

/// The cap of a character that is read as a number.
pub open spec fn character_cap(raw: int) -> int {
    if raw <= 85 {
        weapon_cap(raw)
    } else if raw <= 92 {
        90
    } else if raw <= 97 {
        95
    } else {
        100
    }
}

/// A number is brought to the nearest cap.
pub proof fn caps_are_the_nearest(raw: int)
    ensures
        nearest_cap(weapon_caps(), raw) == weapon_cap(raw),
        nearest_cap(level_caps(), raw) == character_cap(raw),
{
    reveal_with_fuel(nearest_among, 10);
    let w = weapon_caps();
    assert(w[0] == 20 && w[1] == 40 && w[2] == 50 && w[3] == 60 && w[4] == 70 && w[5] == 80 && w[6]
        == 90 && w.len() == 7);
    let c = level_caps();
    assert(c[0] == 20 && c[1] == 40 && c[2] == 50 && c[3] == 60 && c[4] == 70 && c[5] == 80 && c[6]
        == 90 && c[7] == 95 && c[8] == 100 && c.len() == 9);
}

/// Where a text holds a level and a cap with a slash between them, the level of
/// the weapon is the number before the slash, and the weapon has ascended where
/// it has reached level 20 and stands below the cap.
pub proof fn weapon_levels_stand_before_the_slash(
    text: Seq<char>,
    groups: Seq<Option<Seq<char>>>,
    level: int,
    cap: int,
)
    requires
        text.len() > 0,
        crate::patterns::first_match("(\\d+)\\s*/\\s*(\\d+)"@, text) == Some(groups),
        groups.len() > 2,
        groups[1] is Some,
        groups[2] is Some,
        i32_of(groups[1]->0) == Some(level),
        i32_of(groups[2]->0) == Some(cap),
    ensures
        weapon_level(text).0 == level,
        weapon_level(text).1 == (20 <= level < weapon_cap(cap)),
{
    caps_are_the_nearest(cap);
}

/// A weapon is said to have ascended only from level 20 on and below level 90,
/// and without a text its level is one.
pub proof fn ascended_weapons_reached_twenty(text: Seq<char>)
    ensures
        weapon_level(text).1 ==> 20 <= weapon_level(text).0 < 90,
        text.len() == 0 ==> weapon_level(text) == (1int, false),
        forall|level: int, max: int| #[trigger]
            level_under(level, max).0 == level && level_under(level, max).1 == (20 <= level
                < weapon_cap(max)),
{
    assert forall|level: int, max: int| #[trigger] level_under(level, max).0 == level && level_under(
        level,
        max,
    ).1 == (20 <= level < weapon_cap(max)) by {
        caps_are_the_nearest(max);
    }
}

/// Digits of a level and a cap without anything between them: both numbers are
/// read off at one place, the level is from 1 to the cap, and the cap is from 10
/// to the highest level.
pub open spec fn splits(digits: Seq<char>, i: int, top: int, level: int, cap: int) -> bool {
    &&& 0 < i < digits.len()
    &&& i32_of(digits.take(i)) == Some(level)
    &&& i32_of(digits.skip(i)) == Some(cap)
    &&& 1 <= level <= cap <= top
    &&& 10 <= cap
}

/// Digits are split into a level and a cap wherever that is possible, at the last
/// possible place.
pub proof fn digits_are_split_where_possible(
    digits: Seq<char>,
    top: int,
    i: int,
    level: int,
    cap: int,
)
    requires
        splits(digits, i, top, level, cap),
    ensures
        exists|k: int, l: int, m: int|
            i <= k && #[trigger] splits(digits, k, top, l, m) && split_digits(digits, top) == Some(
                (l, m),
            ),
{
    lemma_split_before(digits, digits.len() - 1, top, i, level, cap);
}

proof fn lemma_split_before(
    digits: Seq<char>,
    j: int,
    top: int,
    i: int,
    level: int,
    cap: int,
)
    requires
        splits(digits, i, top, level, cap),
        i <= j < digits.len(),
    ensures
        exists|k: int, l: int, m: int|
            i <= k && #[trigger] splits(digits, k, top, l, m) && split_before(digits, j, top)
                == Some((l, m)),
    decreases j,
{
    match split_at(digits, j, top) {
        Some((l, m)) => {
            assert(splits(digits, j, top, l, m));
        },
        None => {
            assert(i != j);
            lemma_split_before(digits, j - 1, top, i, level, cap);
        },
    }
}

/// What digits are split into are numbers at one place of them.
pub proof fn split_digits_are_read_off(digits: Seq<char>, top: int)
    ensures
        split_digits(digits, top) matches Some((l, m)) ==> exists|k: int| #[trigger]
            splits(digits, k, top, l, m),
{
    lemma_split_found(digits, digits.len() - 1, top);
}

proof fn lemma_split_found(digits: Seq<char>, j: int, top: int)
    requires
        j < digits.len(),
    ensures
        split_before(digits, j, top) matches Some((l, m)) ==> exists|k: int| #[trigger]
            splits(digits, k, top, l, m),
    decreases j,
{
    if j >= 1 {
        match split_at(digits, j, top) {
            Some((l, m)) => {
                assert(splits(digits, j, top, l, m));
            },
            None => {
                lemma_split_found(digits, j - 1, top);
            },
        }
    }
}

/// A split that leaves one digit out as noise is a split of the other digits, and
/// there is one wherever leaving out some digit makes a split possible.
pub proof fn one_digit_may_be_noise(digits: Seq<char>, top: int, k: int)
    requires
        0 <= k < digits.len(),
    ensures
        split_digits(digits.remove(k), top) is Some ==> split_noisy(digits, top) is Some,
        split_noisy(digits, top) matches Some(p) ==> exists|j: int|
            0 <= j < digits.len() && #[trigger] split_digits(digits.remove(j), top) == Some(p),
{
    lemma_noise(digits, top, digits.len(), k);
    if let Some(j) = noise_among(digits, top, digits.len()) {
        assert(split_digits(digits.remove(j), top) is Some);
    }
}

proof fn lemma_noise(digits: Seq<char>, top: int, n: nat, k: int)
    requires
        n <= digits.len(),
    ensures
        0 <= k < n && split_digits(digits.remove(k), top) is Some ==> noise_among(digits, top, n)
            is Some,
        noise_among(digits, top, n) matches Some(j) ==> {
            &&& 0 <= j < n
            &&& split_digits(digits.remove(j), top) is Some
            &&& 0 <= k < n && split_digits(digits.remove(k), top) is Some ==> apart(
                2 * j,
                digits.len() as int,
            ) <= apart(2 * k, digits.len() as int)
        },
    decreases n,
{
    if n > 0 {
        lemma_noise(digits, top, (n - 1) as nat, k);
    }
}

/// Where a text holds the level of a character and its cap with a slash between
/// them, the level is the number before the slash, but no more than the cap; at
/// the caps 95 and 100, which are not reached level by level, it is the cap.
/// Levels from 91 to 94 and from 96 to 99, which do not exist, are kept to be
/// looked at again. The character has ascended where the level is from 20 to
/// below the cap.
pub proof fn character_levels_stand_before_the_slash(
    text: Seq<char>,
    groups: Seq<Option<Seq<char>>>,
    level: int,
    max: int,
)
    requires
        crate::patterns::first_match("(\\d+)\\s*[./·:]*\\s*/\\s*[./·:]*\\s*(\\d+)"@, text) == Some(
            groups,
        ),
        groups.len() > 2,
        groups[1] is Some,
        groups[2] is Some,
        i32_of(groups[1]->0) == Some(level),
        i32_of(groups[2]->0) == Some(max),
    ensures
        ({
            let cap = character_cap(max);
            let (l, ascended) = character_level(text);
            &&& level <= cap && cap <= 90 ==> l == level
            &&& level > cap && (level <= 90 || level == 95 || level >= 100) ==> l == cap
            &&& cap >= 95 && (level <= 90 || level == 95 || level >= 100) ==> l == cap
            &&& 91 <= level <= 99 && level != 95 ==> l == level
            &&& ascended == (20 <= l < cap)
        }),
{
    caps_are_the_nearest(max);
}

/// Where there is no slash, digits that make a number from 1 to 100 are the level.
pub proof fn single_numbers_are_levels(text: Seq<char>)
    requires
        crate::patterns::first_match("(\\d+)\\s*[./·:]*\\s*/\\s*[./·:]*\\s*(\\d+)"@, text) is None,
    ensures
        digits_of(text).len() > 0 && 1 <= digits_value(digits_of(text)) <= 100 ==> character_level(
            text,
        ) == (digits_value(digits_of(text)), false),
        digits_of(text).len() == 0 ==> character_level(text) == (1int, false),
{
}

/// Below a cap stand the levels from the cap before on: 1 below 20, 20 below 40,
/// and so on; no level is below the first one.
pub proof fn caps_follow_each_other(level: int)
    requires
        1 <= level <= 100,
    ensures
        cap_above(level) > level || (level >= 95 && cap_above(level) == 100),
        level_caps().contains(cap_above(level) as i32),
        lowest_level(cap_above(level)) matches Some(low) && low <= level,
        forall|k: int|
            0 <= k < 9 ==> (#[trigger] level_caps()[k] > level ==> cap_above(level)
                <= level_caps()[k]),
{
    let c = level_caps();
    assert(c[0] == 20 && c[1] == 40 && c[2] == 50 && c[3] == 60 && c[4] == 70 && c[5] == 80 && c[6]
        == 90 && c[7] == 95 && c[8] == 100 && c.len() == 9);
}

/// The lowest level under a cap is the cap before it, and 1 under the first.
pub proof fn lowest_levels_are_earlier_caps(k: int)
    requires
        0 <= k < 9,
    ensures
        lowest_level(level_caps()[k] as int) == Some(
            if k == 0 {
                1int
            } else {
                level_caps()[k - 1] as int
            },
        ),
{
    let c = level_caps();
    assert(c[0] == 20 && c[1] == 40 && c[2] == 50 && c[3] == 60 && c[4] == 70 && c[5] == 80 && c[6]
        == 90 && c[7] == 95 && c[8] == 100 && c.len() == 9);
}

/// A level is in doubt where it does not exist, where it has one digit but is not
/// 1, or where it is outside the range from 1 to 100.
pub proof fn doubtful_levels(level: int, ascended: bool)
    ensures
        doubtful_level(level, ascended) <==> (91 <= level <= 99 && level != 95) || 2 <= level <= 9
            || level < 1 || level > 100,
{
}

/// The refinement is the number behind the word for it, else behind the letter
/// for it, else a digit from 1 to 5; without any it is 1.
pub proof fn refinements_are_numbers(
    text: Seq<char>,
    groups: Seq<Option<Seq<char>>>,
    n: int,
)
    requires
        text.len() > 0,
        groups.len() > 1,
        groups[1] is Some,
        i32_of(groups[1]->0) == Some(n),
    ensures
        crate::patterns::first_match("精炼\\s*(\\d)"@, text) == Some(groups) ==> refinement_in(text)
            == n,
        crate::patterns::first_match("精炼\\s*(\\d)"@, text) is None && crate::patterns::first_match(
            "(?i)[Rr](\\d)"@,
            text,
        ) == Some(groups) ==> refinement_in(text) == n,
        crate::patterns::first_match("精炼\\s*(\\d)"@, text) is None && crate::patterns::first_match(
            "(?i)[Rr](\\d)"@,
            text,
        ) is None && crate::patterns::first_match("(\\d)"@, text) == Some(groups)
            ==> refinement_in(text) == if n >= 1 && n <= 5 {
            n
        } else {
            1
        },
{
}

/// Without any digit, or without a text, the refinement is 1.
pub proof fn refinements_start_at_one(text: Seq<char>)
    requires
        text.len() == 0 || (crate::patterns::first_match("精炼\\s*(\\d)"@, text) is None
            && crate::patterns::first_match("(?i)[Rr](\\d)"@, text) is None
            && crate::patterns::first_match("(\\d)"@, text) is None),
    ensures
        refinement_in(text) == 1,
{
}

/// Where there is no slash, the digits of the text are split into a level and a
/// cap of at most 90 where that is possible; else the number behind the letters
/// for the level counts, else all digits together from 1 to 90, else 1.
pub proof fn weapon_levels_without_a_slash(text: Seq<char>)
    requires
        text.len() > 0,
        crate::patterns::first_match("(\\d+)\\s*/\\s*(\\d+)"@, text) is None,
    ensures
        digits_of(text).len() == 0 ==> weapon_level(text) == (1int, false),
        digits_of(text).len() > 0 ==> {
            &&& split_digits(digits_of(text), 90) matches Some((l, m)) ==> weapon_level(text) == (
                l,
                20 <= l < weapon_cap(m),
            )
            &&& split_digits(digits_of(text), 90) is None ==> {
                &&& split_noisy(digits_of(text), 90) matches Some((l, m)) ==> weapon_level(text)
                    == (l, 20 <= l < weapon_cap(m))
                &&& split_noisy(digits_of(text), 90) is None ==> {
                    &&& !weapon_level(text).1
                    &&& crate::patterns::first_match("(?i)[Ll][Vv]\\.?\\s*(\\d+)"@, text) is None
                        ==> weapon_level(text).0 == match i32_of(digits_of(text)) {
                        Some(n) => if n >= 1 && n <= 90 {
                            n
                        } else {
                            1
                        },
                        None => 1,
                    }
                    &&& crate::patterns::first_match("(?i)[Ll][Vv]\\.?\\s*(\\d+)"@, text) matches Some(
                        groups,
                    ) ==> (groups.len() > 1 && groups[1] is Some && i32_of(groups[1]->0) is Some
                        ==> weapon_level(text).0 == i32_of(groups[1]->0)->0)
                }
            }
        },
{
    if let Some((l, m)) = split_digits(digits_of(text), 90) {
        caps_are_the_nearest(m);
    }
    if let Some((l, m)) = split_noisy(digits_of(text), 90) {
        caps_are_the_nearest(m);
    }
}

/// Where there is no slash, digits that make a number above 100 are split into a
/// level and a cap of at most 100 where that is possible; else the first three or
/// the first two of them are the level, else it is 1.
pub proof fn character_levels_without_a_slash(text: Seq<char>)
    requires
        crate::patterns::first_match("(\\d+)\\s*[./·:]*\\s*/\\s*[./·:]*\\s*(\\d+)"@, text) is None,
        digits_value(digits_of(text)) > 100,
    ensures
        ({
            let digits = digits_of(text);
            let r = character_level(text);
            &&& split_digits(digits, 100) matches Some((l, m)) ==> {
                &&& l <= 90 && m <= 92 ==> r.0 == (if l <= character_cap(m) {
                    l
                } else {
                    character_cap(m)
                })
                &&& r.1 == (20 <= r.0 < character_cap(m))
            }
            &&& split_digits(digits, 100) is None && split_noisy(digits, 100) is None ==> {
                &&& !r.1
                &&& 1 <= r.0 <= 100
                &&& digits.len() >= 3 && i32_of(digits.take(3)) == Some(100int) ==> r.0 == 100
                &&& digits.len() >= 3 && (i32_of(digits.take(3)) is None || i32_of(
                    digits.take(3),
                )->0 > 100) && (i32_of(digits.take(2)) matches Some(n) && n >= 1 && n <= 100)
                    ==> r.0 == i32_of(digits.take(2))->0
            }
        }),
{
    let digits = digits_of(text);
    assert(digits.len() > 0);
    if let Some((l, m)) = split_digits(digits, 100) {
        caps_are_the_nearest(m);
    }
}

} // verus!
