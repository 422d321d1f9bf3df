//! The level of a character.
use crate::good_common::navigation::{group_i32, group_number};
use crate::number::{digits_value, parse_digits, parse_i32};
use crate::patterns::captures;
use crate::scanner::common::level_text::{
    digits_of, keep_digits, nearest_cap, snap_to_cap, split_digits, split_noisy, try_split_digits,
    try_split_noisy,
};
use vstd::prelude::*;

verus! {

/// A level and its cap with a slash between them, which may be misread in part.
pub const LEVEL_PAIR_PATTERN: &'static str = "(\\d+)\\s*[./·:]*\\s*/\\s*[./·:]*\\s*(\\d+)";

/// The highest level of a character.
pub const TOP_LEVEL: i32 = 100;

/// The level caps of characters.
pub open spec fn level_caps() -> Seq<i32> {
    seq![20i32, 40, 50, 60, 70, 80, 90, 95, 100]
}

/// The lowest level under a cap: the one before it, which has to be reached.
pub open spec fn lowest_level(cap: int) -> Option<int> {
    if cap == 20 {
        Some(1)
    } else if cap == 40 {
        Some(20)
    } else if cap == 50 {
        Some(40)
    } else if cap == 60 {
        Some(50)
    } else if cap == 70 {
        Some(60)
    } else if cap == 80 {
        Some(70)
    } else if cap == 90 {
        Some(80)
    } else if cap == 95 {
        Some(90)
    } else if cap == 100 {
        Some(95)
    } else {
        None
    }
}

fn lowest_level_of(cap: i32) -> (low: Option<i32>)
    ensures
        match low {
            Some(n) => lowest_level(cap as int) == Some(n as int),
            None => lowest_level(cap as int) is None,
        },
{
    if cap == 20 {
        Some(1)
    } else if cap == 40 {
        Some(20)
    } else if cap == 50 {
        Some(40)
    } else if cap == 60 {
        Some(50)
    } else if cap == 70 {
        Some(60)
    } else if cap == 80 {
        Some(70)
    } else if cap == 90 {
        Some(80)
    } else if cap == 95 {
        Some(90)
    } else if cap == 100 {
        Some(95)
    } else {
        None
    }
}

/// A level under the cap that is nearest to what was read, and whether the
/// character was ascended beyond it. Under the two highest caps the level is
/// the cap. A level that does not exist is kept, so that it is known as misread.
pub open spec fn final_level(level: int, max: int) -> (int, bool) {
    let cap = nearest_cap(level_caps(), max);
    let lv = if impossible_level(level) {
        level
    } else if cap >= 95 {
        cap
    } else if level < cap {
        level
    } else {
        cap
    };
    (lv, lv >= 20 && lv < cap)
}

/// A level under the cap that is nearest to what was read, and whether the
/// character was ascended beyond it.
pub fn finalize_level(level: i32, max_level: i32) -> (r: (i32, bool))
    ensures
        (r.0 as int, r.1) == final_level(level as int, max_level as int),
{
    let caps: [i32; 9] = [20, 40, 50, 60, 70, 80, 90, 95, 100];
    assert(caps@ =~= level_caps());
    let cap: i32 = snap_to_cap(&caps, max_level);
    let misread = (91 <= level && level <= 94) || (96 <= level && level <= 99);
    let lv: i32 = if misread {
        level
    } else if cap >= 95 {
        cap
    } else if level < cap {
        level
    } else {
        cap
    };
    (lv, lv >= 20 && lv < cap)
}

/// A level can stand under a cap.
pub open spec fn plausible(level: int, cap: int) -> bool {
    1 <= level <= cap && (lowest_level(cap) matches Some(low) ==> level >= low)
}

/// Whether a level can stand under a cap.
pub fn is_level_plausible(level: i32, max_level: i32) -> (yes: bool)
    ensures
        yes == plausible(level as int, max_level as int),
{
    if level > max_level || level < 1 {
        return false;
    }
    match lowest_level_of(max_level) {
        Some(low) => level >= low,
        None => true,
    }
}

/// The first two or three digits as a level.
pub open spec fn leading_level(digits: Seq<char>, n: int) -> Option<int> {
    if digits.len() >= n {
        match crate::number::i32_of(digits.take(n)) {
            Some(level) => if 1 <= level <= TOP_LEVEL {
                Some(level)
            } else {
                None
            },
            None => None,
        }
    } else {
        None
    }
}

/// The level in a run of digits.
pub open spec fn level_in_digits(digits: Seq<char>) -> (int, bool) {
    if digits.len() == 0 {
        (1, false)
    } else if 0 < digits_value(digits) <= TOP_LEVEL {
        (digits_value(digits), false)
    } else {
        match split_digits(digits, TOP_LEVEL as int) {
            Some((level, max)) => final_level(level, max),
            None => match split_noisy(digits, TOP_LEVEL as int) {
                Some((level, max)) => final_level(level, max),
                None => match leading_level(digits, 3) {
                    Some(level) => (level, false),
                    None => match leading_level(digits, 2) {
                        Some(level) => (level, false),
                        None => (1, false),
                    },
                },
            },
        }
    }
}

/// The level in a text, and whether the character was ascended beyond it.
pub open spec fn character_level(text: Seq<char>) -> (int, bool) {
    match crate::patterns::first_match(LEVEL_PAIR_PATTERN@, text) {
        Some(groups) => final_level(group_number(groups, 1, 1), group_number(groups, 2, 20)),
        None => level_in_digits(digits_of(text)),
    }
}

fn try_leading(digits: &Vec<char>, n: usize) -> (level: Option<i32>)
    ensures
        match level {
            Some(l) => leading_level(digits@, n as int) == Some(l as int),
            None => leading_level(digits@, n as int) is None,
        },
{
    if digits.len() < n {
        return None;
    }
    let mut part: Vec<char> = Vec::new();
    let mut i: usize = 0;
    while i < n
        invariant
            i <= n <= digits@.len(),
            part@ == digits@.take(i as int),
        decreases n - i,
    {
        part.push(digits[i]);
        i = i + 1;
        assert(digits@.take(i as int) =~= digits@.take(i - 1).push(digits@[i - 1]));
    }
    match parse_i32(&part) {
        Some(level) => if 1 <= level && level <= TOP_LEVEL {
            Some(level)
        } else {
            None
        },
        None => None,
    }
}

proof fn lemma_kept_are_digits(text: Seq<char>)
    ensures
        crate::number::all_digits(digits_of(text)),
    decreases text.len(),
{
    reveal(Seq::filter);
    if text.len() > 0 {
        lemma_kept_are_digits(text.drop_last());
    }
}

fn parse_level_digits(text: &str) -> (r: (i32, bool))
    ensures
        (r.0 as int, r.1) == level_in_digits(digits_of(text@)),
{
    let digits = keep_digits(text);
    proof {
        lemma_kept_are_digits(text@);
    }
    if digits.len() == 0 {
        return (1, false);
    }
    assert(digits@.skip(0) =~= digits@);
    match parse_digits(&digits, 0, 100) {
        Some(n) => if n > 0 {
            return (n as i32, false);
        },
        None => {},
    }
    match try_split_digits(&digits, TOP_LEVEL) {
        Some((level, max)) => {
            return finalize_level(level, max);
        },
        None => {},
    }
    match try_split_noisy(&digits, TOP_LEVEL) {
        Some((level, max)) => {
            return finalize_level(level, max);
        },
        None => {},
    }
    match try_leading(&digits, 3) {
        Some(level) => {
            return (level, false);
        },
        None => {},
    }
    match try_leading(&digits, 2) {
        Some(level) => (level, false),
        None => (1, false),
    }
}

/// The level in a text, and whether the character was ascended beyond it.
pub fn parse_level_text(text: &str) -> (r: (i32, bool))
    ensures
        (r.0 as int, r.1) == character_level(text@),
{
    match captures(LEVEL_PAIR_PATTERN, text) {
        Some(groups) => finalize_level(group_i32(&groups, 1, 1), group_i32(&groups, 2, 20)),
        None => parse_level_digits(text),
    }
}

/// The first cap above a level, the highest where there is none.
pub open spec fn cap_above(level: int) -> int {
    if level < 20 {
        20
    } else if level < 40 {
        40
    } else if level < 50 {
        50
    } else if level < 60 {
        60
    } else if level < 70 {
        70
    } else if level < 80 {
        80
    } else if level < 90 {
        90
    } else if level < 95 {
        95
    } else {
        100
    }
}

/// The cap that a level stands under: that above it, or the level itself where
/// it is a cap that was not ascended beyond.
pub open spec fn cap_of(level: int, ascended: bool) -> int {
    if !ascended && lowest_level(level) is Some {
        level
    } else {
        cap_above(level)
    }
}

/// The cap that a level stands under.
pub fn derive_max_level(level: i32, ascended: bool) -> (cap: i32)
    ensures
        cap == cap_of(level as int, ascended),
{
    if !ascended && lowest_level_of(level).is_some() {
        return level;
    }
    if level < 20 {
        20
    } else if level < 40 {
        40
    } else if level < 50 {
        50
    } else if level < 60 {
        60
    } else if level < 70 {
        70
    } else if level < 80 {
        80
    } else if level < 90 {
        90
    } else if level < 95 {
        95
    } else {
        100
    }
}

/// No character has this level: above 90 there are only 95 and 100.
pub open spec fn impossible_level(level: int) -> bool {
    91 <= level <= 94 || 96 <= level <= 99
}

/// A level that may be misread: one that does not exist, a single digit above
/// one, or one that cannot stand under its cap.
pub open spec fn doubtful_level(level: int, ascended: bool) -> bool {
    ||| impossible_level(level)
    ||| 2 <= level < 10
    ||| !plausible(level, cap_of(level, ascended))
}

/// Whether a level may be misread.
pub fn is_level_suspicious(level: i32, ascended: bool) -> (yes: bool)
    ensures
        yes == doubtful_level(level as int, ascended),
{
    if (91 <= level && level <= 94) || (96 <= level && level <= 99) {
        return true;
    }
    if level >= 2 && level < 10 {
        return true;
    }
    let cap: i32 = derive_max_level(level, ascended);
    !is_level_plausible(level, cap)
}

/// A level that does not exist is kept and is in doubt, any other is never above
/// its cap, and every level from 1 on that is not in doubt can stand under its
/// cap.
pub proof fn levels_fit_caps(level: int, max: int, ascended: bool)
    ensures
        impossible_level(level) ==> final_level(level, max).0 == level && doubtful_level(
            level,
            ascended,
        ),
        !impossible_level(level) ==> final_level(level, max).0 <= nearest_cap(level_caps(), max),
        final_level(level, max).1 ==> final_level(level, max).0 < nearest_cap(level_caps(), max),
        20 <= nearest_cap(level_caps(), max) <= 100,
        1 <= level <= 100 && !doubtful_level(level, ascended) ==> plausible(
            level,
            cap_of(level, ascended),
        ) && cap_of(level, ascended) <= 100,
{
    crate::scanner::common::level_text::no_cap_is_nearer(level_caps(), max, 0);
    let caps = level_caps();
    assert(caps[0] == 20 && caps[1] == 40 && caps[2] == 50 && caps[3] == 60 && caps[4] == 70
        && caps[5] == 80 && caps[6] == 90 && caps[7] == 95 && caps[8] == 100);
    let i = choose|i: int| 0 <= i < caps.len() && #[trigger] caps[i] == nearest_cap(caps, max);
    assert(20 <= caps[i] <= 100);
}

} // verus!
