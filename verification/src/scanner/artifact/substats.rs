//! The level and the substats of an artifact.
use crate::good_common::stat_parser::parse_stat_from_text;
use crate::patterns::captures;
use crate::scanner::artifact::set_name::{chinese_count, cn_char_count};
use crate::scanner::common::fuzzy_match::byte_len;
use crate::scanner::common::models::GoodSubStat;
use crate::scanner::common::roll_solver::{OcrCandidate, SolvedSubstat, SolverResult, UNIT};
use crate::text::{copy_of, has_text, same_text, trim_text};
use vstd::prelude::*;

verus! {

/// A level: a number behind a plus sign, which may be missing.
pub const LEVEL_PATTERN: &'static str = "\\+?\\s*(\\d+)";

/// The highest level.
pub const MAX_LEVEL: i32 = 20;

/// The number in a text for a level, if it fits an `i32`.
pub open spec fn level_number(text: Seq<char>) -> Option<int> {
    match crate::patterns::first_match(LEVEL_PATTERN@, text) {
        Some(groups) => crate::number::i32_of(crate::patterns::group(groups, 1)),
        None => None,
    }
}

/// The level in a text, -1 where there is none up to 20.
pub open spec fn level_in(text: Seq<char>) -> int {
    match level_number(text) {
        Some(n) => if n <= MAX_LEVEL {
            n
        } else {
            -1
        },
        None => -1,
    }
}

/// A level is at most 20.
pub proof fn level_range(text: Seq<char>)
    ensures
        i32::MIN <= level_in(text) <= MAX_LEVEL,
{
    match crate::patterns::first_match(LEVEL_PATTERN@, text) {
        Some(groups) => crate::number::i32_fits(crate::patterns::group(groups, 1)),
        None => {},
    }
}

/// The number in a text for a level.
pub fn parse_level_number(text: &str) -> (n: Option<i32>)
    ensures
        match n {
            Some(n) => level_number(text@) == Some(n as int),
            None => level_number(text@) is None,
        },
{
    match captures(LEVEL_PATTERN, text) {
        Some(groups) => crate::number::parse_i32(&crate::patterns::group_chars(&groups, 1)),
        None => None,
    }
}

/// The level in a text, -1 where there is none up to 20.
pub fn parse_level(text: &str) -> (level: i32)
    ensures
        level == level_in(text@),
        level <= MAX_LEVEL,
{
    match parse_level_number(text) {
        Some(n) => if n <= MAX_LEVEL {
            n
        } else {
            -1
        },
        None => -1,
    }
}

/// The level by two readings: the higher one, a reading below zero not counted,
/// and zero without any.
pub open spec fn merged_level(a: int, b: int) -> int {
    if a < 0 && b < 0 {
        0
    } else if a >= b {
        a
    } else {
        b
    }
}

/// The level by two readings.
pub fn merge_levels(a: i32, b: i32) -> (level: i32)
    ensures
        level == merged_level(a as int, b as int),
        level >= 0,
{
    if a < 0 && b < 0 {
        0
    } else if a >= b {
        a
    } else {
        b
    }
}

/// The levels that the solver may take: the readings from zero on, each once,
/// and zero without any.
pub open spec fn level_readings_of(a: i32, b: i32) -> Seq<i32> {
    let first = if a >= 0 {
        seq![a]
    } else {
        Seq::empty()
    };
    let both = if b >= 0 && b != a {
        first.push(b)
    } else {
        first
    };
    if both.len() == 0 {
        seq![0i32]
    } else {
        both
    }
}

/// The levels that the solver may take.
pub fn level_readings(a: i32, b: i32) -> (levels: Vec<i32>)
    ensures
        levels@ == level_readings_of(a, b),
{
    let mut levels: Vec<i32> = Vec::new();
    if a >= 0 {
        levels.push(a);
    }
    if b >= 0 && b != a {
        levels.push(b);
    }
    if levels.len() == 0 {
        levels.push(0);
    }
    levels
}

/// How many substat lines a card can have: four, but three on an artifact of
/// four stars or less that has no level.
pub open spec fn most_lines(rarity: int, level: int) -> int {
    if rarity == 5 || level >= 4 {
        4
    } else {
        3
    }
}

/// How many substat lines a card can have.
pub fn max_scan_lines(rarity: i32, level: i32) -> (n: usize)
    requires
        0 <= level <= MAX_LEVEL,
    ensures
        n == most_lines(rarity as int, level as int),
{
    let init: i32 = if rarity == 5 {
        4
    } else {
        3
    };
    let n: i32 = init + level / 4;
    if n > 4 {
        4
    } else {
        n as usize
    }
}

/// How many substat lines a card has at least: four with five stars; else two,
/// and one more for each four levels, up to four.
pub open spec fn fewest_lines(rarity: int, level: int) -> int {
    if rarity == 5 || level >= 8 {
        4
    } else if level >= 4 {
        3
    } else {
        2
    }
}

/// How many substat lines a card has at least.
pub fn min_required(rarity: i32, level: i32) -> (n: usize)
    requires
        0 <= level <= MAX_LEVEL,
    ensures
        n == fewest_lines(rarity as int, level as int),
{
    if rarity == 5 {
        return 4;
    }
    let n: i32 = 2 + level / 4;
    if n > 4 {
        4
    } else {
        n as usize
    }
}

/// No card has fewer lines than the least, which is no more than the most.
pub proof fn line_counts_agree(rarity: int, level: int)
    ensures
        2 <= fewest_lines(rarity, level) <= most_lines(rarity, level) <= 4,
{
}

/// A stat: its key, its value in millionths, and whether it is not yet
/// activated.
pub type Stat = (Seq<char>, int, bool);

/// The stat of a reading.
pub open spec fn stat_of(c: OcrCandidate) -> Stat {
    (c.key@, c.value as int, c.inactive)
}

/// The stat that a text gives.
pub open spec fn stat_said(text: Seq<char>) -> Option<Stat> {
    if text.len() == 0 {
        None
    } else {
        crate::good_common::stat_parser::stat_in(
            crate::text::trimmed(crate::good_common::stat_parser::mended(text, false)),
        )
    }
}

/// The text that is taken for a line: as it is if it gives a stat, else with
/// the icon painted over if that gives one, else the one with more Chinese
/// characters.
pub open spec fn better_line(plain: Seq<char>, masked: Seq<char>) -> Seq<char> {
    if stat_said(plain) is Some {
        plain
    } else if stat_said(masked) is Some {
        masked
    } else if chinese_count(masked) > chinese_count(plain) {
        masked
    } else {
        plain
    }
}

/// The text that is taken for a line, where the text as it is gives no stat.
pub fn choose_line(plain: String, masked: String) -> (text: String)
    requires
        stat_said(plain@) is None,
    ensures
        text@ == better_line(plain@, masked@),
{
    if parse_stat_from_text(masked.as_str()).is_some() {
        masked
    } else if cn_char_count(masked.as_str()) > cn_char_count(plain.as_str()) {
        masked
    } else {
        plain
    }
}

/// The text belongs to the set effects below the substats.
pub open spec fn past_substats(text: Seq<char>) -> bool {
    crate::text::occurs_in(text, "2件套"@)
}

/// The reading of a line.
pub open spec fn line_stat(text: Seq<char>) -> Option<Stat> {
    if past_substats(text) || byte_len(crate::text::trimmed(text)) < 2 {
        None
    } else {
        stat_said(crate::text::trimmed(text))
    }
}

/// The reading of a line, and whether the line is past the substats.
pub fn parse_line(text: &str) -> (found: (Option<OcrCandidate>, bool))
    ensures
        match found.0 {
            Some(c) => line_stat(text@) == Some(stat_of(c)),
            None => line_stat(text@) is None,
        },
        found.1 == past_substats(text@),
{
    let stop = has_text(text, "2件套");
    let bare = trim_text(text);
    let len: usize = bare.as_str().len();
    if stop || len < 2 {
        return (None, stop);
    }
    match parse_stat_from_text(bare.as_str()) {
        Some(stat) => (
            Some(OcrCandidate { key: stat.key, value: stat.value, inactive: stat.inactive }),
            false,
        ),
        None => (None, false),
    }
}

/// Two values that count as the same: less than a hundredth apart.
pub open spec fn same_value(a: int, b: int) -> bool {
    -10_000 < a - b < 10_000
}

/// The list already has such a reading.
pub open spec fn has_reading(list: Seq<OcrCandidate>, c: OcrCandidate) -> bool {
    exists|i: int|
        0 <= i < list.len() && (#[trigger] list[i]).key@ == c.key@ && same_value(
            list[i].value as int,
            c.value as int,
        )
}

/// A line with one reading more, unless it has it already.
pub open spec fn with_candidate(list: Seq<OcrCandidate>, c: OcrCandidate) -> Seq<OcrCandidate> {
    if has_reading(list, c) {
        list
    } else {
        list.push(c)
    }
}

/// Adds a reading of a line, unless it is there already.
pub fn add_reading(list: &mut Vec<OcrCandidate>, c: OcrCandidate) -> (added: bool)
    ensures
        added == !has_reading(old(list)@, c),
        final(list)@ == with_candidate(old(list)@, c),
{
    let mut i: usize = 0;
    while i < list.len()
        invariant
            i <= list@.len(),
            list@ == old(list)@,
            forall|k: int|
                0 <= k < i ==> !((#[trigger] list@[k]).key@ == c.key@ && same_value(
                    list@[k].value as int,
                    c.value as int,
                )),
        decreases list@.len() - i,
    {
        let apart: i128 = list[i].value as i128 - c.value as i128;
        if same_text(list[i].key.as_str(), c.key.as_str()) && -10_000 < apart && apart < 10_000 {
            return false;
        }
        i = i + 1;
    }
    list.push(c);
    true
}

/// The value has a fraction of more than a thousandth.
pub open spec fn has_fraction(value: int) -> bool {
    (if value < 0 {
        -value
    } else {
        value
    }) % (UNIT as int) > 1_000
}

fn fractional(value: i64) -> (yes: bool)
    ensures
        yes == has_fraction(value as int),
{
    let wide: i128 = value as i128;
    let size: i128 = if wide < 0 {
        -wide
    } else {
        wide
    };
    size % 1_000_000 > 1_000
}

/// The second value is at least as good as the first: a fraction counts first,
/// then the size.
pub open spec fn no_worse(a: int, b: int) -> bool {
    if has_fraction(a) != has_fraction(b) {
        has_fraction(b)
    } else {
        a <= b
    }
}

/// All readings have the same key.
pub open spec fn one_key(list: Seq<OcrCandidate>) -> bool {
    forall|i: int| 0 <= i < list.len() ==> (#[trigger] list[i]).key@ == list[0].key@
}

/// The best value among the first `n` readings, the last of several.
pub open spec fn best_among(list: Seq<OcrCandidate>, n: nat) -> int
    decreases n,
{
    if n <= 1 {
        0
    } else {
        let earlier = best_among(list, (n - 1) as nat);
        if no_worse(list[earlier].value as int, list[n - 1].value as int) {
            n - 1
        } else {
            earlier
        }
    }
}

/// Which reading is taken for a line: of readings of one stat the best value,
/// else the first reading.
pub open spec fn best_reading(list: Seq<OcrCandidate>) -> int {
    if one_key(list) {
        best_among(list, list.len())
    } else {
        0
    }
}

/// Which reading is taken for a line.
pub fn pick_best_candidate(list: &Vec<OcrCandidate>) -> (best: Option<usize>)
    ensures
        match best {
            Some(i) => i == best_reading(list@) && i < list@.len(),
            None => list@.len() == 0,
        },
{
    if list.len() == 0 {
        return None;
    }
    let mut i: usize = 1;
    let mut best: usize = 0;
    while i < list.len()
        invariant
            1 <= i <= list@.len(),
            best < list@.len(),
            best == best_among(list@, i as nat),
            forall|k: int| 0 <= k < i ==> (#[trigger] list@[k]).key@ == list@[0].key@,
        decreases list@.len() - i,
    {
        if !same_text(list[i].key.as_str(), list[0].key.as_str()) {
            assert(list@[i as int].key@ != list@[0].key@);
            return Some(0);
        }
        let a: i64 = list[best].value;
        let b: i64 = list[i].value;
        let fa = fractional(a);
        let fb = fractional(b);
        if (fa != fb && fb) || (fa == fb && a <= b) {
            best = i;
        }
        i = i + 1;
    }
    Some(best)
}

/// No reading of the same stat is better than the one that is taken.
pub proof fn best_is_best(list: Seq<OcrCandidate>, i: int)
    requires
        0 <= i < list.len(),
    ensures
        0 <= best_reading(list) < list.len(),
        one_key(list) ==> no_worse(
            list[i].value as int,
            list[best_reading(list)].value as int,
        ),
{
    if one_key(list) {
        lemma_best_among(list, list.len(), i);
    }
}

proof fn lemma_best_among(list: Seq<OcrCandidate>, n: nat, i: int)
    requires
        0 <= i < n <= list.len(),
    ensures
        0 <= best_among(list, n) < n,
        no_worse(list[i].value as int, list[best_among(list, n)].value as int),
    decreases n,
{
    if n > 1 {
        lemma_best_among(list, (n - 1) as nat, 0);
        if i < n - 1 {
            lemma_best_among(list, (n - 1) as nat, i);
        }
    }
}

/// A substat of the export: its key, its value, and its initial value.
pub type SubStat = (Seq<char>, i64, Option<i64>);

/// The substat of the export.
pub open spec fn sub_of(s: GoodSubStat) -> SubStat {
    (s.key@, s.value, s.initial_value)
}

/// The substats of a list.
pub open spec fn subs_of(list: Seq<GoodSubStat>) -> Seq<SubStat> {
    Seq::new(list.len(), |i: int| sub_of(list[i]))
}

/// The active or the inactive ones among the first `n` solved substats.
pub open spec fn solved_part(list: Seq<SolvedSubstat>, inactive: bool, n: nat) -> Seq<SubStat>
    decreases n,
{
    if n == 0 {
        Seq::empty()
    } else {
        let earlier = solved_part(list, inactive, (n - 1) as nat);
        let s = list[n - 1];
        if s.inactive == inactive {
            earlier.push((s.key@, s.value, s.initial_value))
        } else {
            earlier
        }
    }
}

/// The active or the inactive ones among the best readings of the first `n`
/// lines.
pub open spec fn guessed_part(lines: Seq<Vec<OcrCandidate>>, inactive: bool, n: nat) -> Seq<SubStat>
    decreases n,
{
    if n == 0 {
        Seq::empty()
    } else {
        let earlier = guessed_part(lines, inactive, (n - 1) as nat);
        let line = lines[n - 1]@;
        let best = line[best_reading(line)];
        if line.len() > 0 && best.inactive == inactive {
            earlier.push((best.key@, best.value, None))
        } else {
            earlier
        }
    }
}

/// The substats of an artifact.
#[derive(Debug)]
pub struct Substats {
    pub active: Vec<GoodSubStat>,
    pub inactive: Vec<GoodSubStat>,
    /// The rolls of all substats together, where they were solved.
    pub total_rolls: Option<i32>,
}

/// The substats as the solver found them.
pub open spec fn as_solved(out: Substats, result: SolverResult) -> bool {
    let list = result.substats@;
    &&& subs_of(out.active@) == solved_part(list, false, list.len())
    &&& subs_of(out.inactive@) == solved_part(list, true, list.len())
    &&& out.total_rolls == Some(result.total_rolls)
}

/// The substats by the best reading of each line.
pub open spec fn as_guessed(out: Substats, lines: Seq<Vec<OcrCandidate>>) -> bool {
    &&& subs_of(out.active@) == guessed_part(lines, false, lines.len())
    &&& subs_of(out.inactive@) == guessed_part(lines, true, lines.len())
    &&& out.total_rolls is None
}

/// The substats as the solver found them.
pub fn from_solution(result: &SolverResult) -> (out: Substats)
    ensures
        as_solved(out, *result),
{
    let mut active: Vec<GoodSubStat> = Vec::new();
    let mut inactive: Vec<GoodSubStat> = Vec::new();
    let mut i: usize = 0;
    assert(subs_of(active@) =~= solved_part(result.substats@, false, 0));
    assert(subs_of(inactive@) =~= solved_part(result.substats@, true, 0));
    while i < result.substats.len()
        invariant
            i <= result.substats@.len(),
            subs_of(active@) == solved_part(result.substats@, false, i as nat),
            subs_of(inactive@) == solved_part(result.substats@, true, i as nat),
        decreases result.substats@.len() - i,
    {
        let s = &result.substats[i];
        let sub = GoodSubStat {
            key: copy_of(s.key.as_str()),
            value: s.value,
            initial_value: s.initial_value,
        };
        let ghost before_active = subs_of(active@);
        let ghost before_inactive = subs_of(inactive@);
        if s.inactive {
            inactive.push(sub);
            assert(subs_of(inactive@) =~= before_inactive.push(sub_of(sub)));
        } else {
            active.push(sub);
            assert(subs_of(active@) =~= before_active.push(sub_of(sub)));
        }
        i = i + 1;
    }
    Substats { active, inactive, total_rolls: Some(result.total_rolls) }
}

/// The substats by the best reading of each line.
pub fn from_guess(lines: &Vec<Vec<OcrCandidate>>) -> (out: Substats)
    ensures
        as_guessed(out, lines@),
{
    let mut active: Vec<GoodSubStat> = Vec::new();
    let mut inactive: Vec<GoodSubStat> = Vec::new();
    let mut i: usize = 0;
    assert(subs_of(active@) =~= guessed_part(lines@, false, 0));
    assert(subs_of(inactive@) =~= guessed_part(lines@, true, 0));
    while i < lines.len()
        invariant
            i <= lines@.len(),
            subs_of(active@) == guessed_part(lines@, false, i as nat),
            subs_of(inactive@) == guessed_part(lines@, true, i as nat),
        decreases lines@.len() - i,
    {
        let ghost before_active = subs_of(active@);
        let ghost before_inactive = subs_of(inactive@);
        match pick_best_candidate(&lines[i]) {
            Some(k) => {
                let best = &lines[i][k];
                let sub = GoodSubStat {
                    key: copy_of(best.key.as_str()),
                    value: best.value,
                    initial_value: None,
                };
                if best.inactive {
                    inactive.push(sub);
                    assert(subs_of(inactive@) =~= before_inactive.push(sub_of(sub)));
                } else {
                    active.push(sub);
                    assert(subs_of(active@) =~= before_active.push(sub_of(sub)));
                }
            },
            None => {},
        }
        i = i + 1;
    }
    Substats { active, inactive, total_rolls: None }
}

/// A reading is added at the end, unless the line has one of the same stat whose
/// value is less than a hundredth away.
pub proof fn readings_are_added_once(list: Seq<OcrCandidate>, c: OcrCandidate, i: int)
    requires
        0 <= i < list.len(),
    ensures
        list[i].key@ == c.key@ && -10_000 < list[i].value - c.value < 10_000 ==> with_candidate(
            list,
            c,
        ) == list,
        with_candidate(list, c) == list || with_candidate(list, c) == list + seq![c],
        (forall|k: int| 0 <= k < list.len() ==> (#[trigger] list[k]).key@ != c.key@)
            ==> with_candidate(list, c) == list + seq![c],
        with_candidate(Seq::empty(), c) == seq![c],
{
    assert(list.push(c) =~= list + seq![c]);
    assert(Seq::<OcrCandidate>::empty().push(c) =~= seq![c]);
}

} // verus!
