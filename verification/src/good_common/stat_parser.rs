//! Stats in recognised texts.
use crate::number::parse_decimal;
use crate::patterns::{captures, captures_all, group_chars, replace_all, split};
use crate::text::{chars_of, copy_of, has_chars, has_text, same_text, string_of, trim_chars};
use vstd::prelude::*;

verus! {

/// What was read of a stat.
#[derive(Debug, Clone)]
pub struct ParsedStat {
    pub key: String,
    /// The value in millionths.
    pub value: i64,
    /// Whether the stat is not yet activated.
    pub inactive: bool,
}

impl View for ParsedStat {
    type V = (Seq<char>, int, bool);

    open spec fn view(&self) -> (Seq<char>, int, bool) {
        (self.key@, self.value as int, self.inactive)
    }
}

/// A number, its digits behind an optional plus or space.
pub const NUM_PATTERN: &'static str = "[+\\s]?([\\d]+\\.?\\d*|\\.\\d+)";

/// A point between digits with spaces around it.
pub const SPACE_DOT_PATTERN: &'static str = "(?P<d1>\\d)\\s*\\.\\s*(?P<d2>\\d)";

/// The point between its digits, without the spaces.
pub const SPACE_DOT_TEMPLATE: &'static str = "${d1}.${d2}";

/// A letter in place of the first digit behind a point.
pub const DOT_LETTER_PATTERN: &'static str = "(\\d+\\.)([a-zA-Z])(\\d*)";

/// How many stats there are.
pub const STATS: usize = 16;

/// The stats: the name, the key of the flat value and the key of the percentage.
pub open spec fn stat_table() -> Seq<(Seq<char>, Seq<char>, Seq<char>)> {
    seq![
        ("生命值"@, "hp"@, "hp_"@),
        ("攻击力"@, "atk"@, "atk_"@),
        ("防御力"@, "def"@, "def_"@),
        ("元素精通"@, "eleMas"@, "eleMas"@),
        ("元素充能效率"@, "enerRech_"@, "enerRech_"@),
        ("暴击率"@, "critRate_"@, "critRate_"@),
        ("暴击伤害"@, "critDMG_"@, "critDMG_"@),
        ("治疗加成"@, "heal_"@, "heal_"@),
        ("物理伤害加成"@, "physical_dmg_"@, "physical_dmg_"@),
        ("火元素伤害加成"@, "pyro_dmg_"@, "pyro_dmg_"@),
        ("雷元素伤害加成"@, "electro_dmg_"@, "electro_dmg_"@),
        ("水元素伤害加成"@, "hydro_dmg_"@, "hydro_dmg_"@),
        ("草元素伤害加成"@, "dendro_dmg_"@, "dendro_dmg_"@),
        ("风元素伤害加成"@, "anemo_dmg_"@, "anemo_dmg_"@),
        ("岩元素伤害加成"@, "geo_dmg_"@, "geo_dmg_"@),
        ("冰元素伤害加成"@, "cryo_dmg_"@, "cryo_dmg_"@),
    ]
}

/// A stat of the table.
pub fn stat_entry(i: usize) -> (e: (&'static str, &'static str, &'static str))
    requires
        i < STATS,
    ensures
        (e.0@, e.1@, e.2@) == stat_table()[i as int],
{
    if i == 0 {
        ("生命值", "hp", "hp_")
    } else if i == 1 {
        ("攻击力", "atk", "atk_")
    } else if i == 2 {
        ("防御力", "def", "def_")
    } else if i == 3 {
        ("元素精通", "eleMas", "eleMas")
    } else if i == 4 {
        ("元素充能效率", "enerRech_", "enerRech_")
    } else if i == 5 {
        ("暴击率", "critRate_", "critRate_")
    } else if i == 6 {
        ("暴击伤害", "critDMG_", "critDMG_")
    } else if i == 7 {
        ("治疗加成", "heal_", "heal_")
    } else if i == 8 {
        ("物理伤害加成", "physical_dmg_", "physical_dmg_")
    } else if i == 9 {
        ("火元素伤害加成", "pyro_dmg_", "pyro_dmg_")
    } else if i == 10 {
        ("雷元素伤害加成", "electro_dmg_", "electro_dmg_")
    } else if i == 11 {
        ("水元素伤害加成", "hydro_dmg_", "hydro_dmg_")
    } else if i == 12 {
        ("草元素伤害加成", "dendro_dmg_", "dendro_dmg_")
    } else if i == 13 {
        ("风元素伤害加成", "anemo_dmg_", "anemo_dmg_")
    } else if i == 14 {
        ("岩元素伤害加成", "geo_dmg_", "geo_dmg_")
    } else {
        ("冰元素伤害加成", "cryo_dmg_", "cryo_dmg_")
    }
}

/// The stats by the length of their names, the longest first.
pub open spec fn by_length(k: int) -> int {
    if k < 7 {
        9 + k
    } else if k == 7 {
        4
    } else if k == 8 {
        8
    } else if k == 9 {
        3
    } else if k == 10 {
        6
    } else if k == 11 {
        7
    } else if k == 15 {
        5
    } else {
        k - 12
    }
}

fn stat_by_length(k: usize) -> (i: usize)
    requires
        k < STATS,
    ensures
        i == by_length(k as int),
        i < STATS,
{
    if k < 7 {
        9 + k
    } else if k == 7 {
        4
    } else if k == 8 {
        8
    } else if k == 9 {
        3
    } else if k == 10 {
        6
    } else if k == 11 {
        7
    } else if k == 15 {
        5
    } else {
        k - 12
    }
}

/// Names are tried from the longest to the shortest, each once.
pub proof fn longer_names_come_first(j: int, k: int)
    requires
        0 <= j < k < STATS,
    ensures
        stat_table()[by_length(j)].0.len() >= stat_table()[by_length(k)].0.len(),
        by_length(j) != by_length(k),
{
    reveal_strlit("生命值");
    reveal_strlit("攻击力");
    reveal_strlit("防御力");
    reveal_strlit("元素精通");
    reveal_strlit("元素充能效率");
    reveal_strlit("暴击率");
    reveal_strlit("暴击伤害");
    reveal_strlit("治疗加成");
    reveal_strlit("物理伤害加成");
    reveal_strlit("火元素伤害加成");
    reveal_strlit("雷元素伤害加成");
    reveal_strlit("水元素伤害加成");
    reveal_strlit("草元素伤害加成");
    reveal_strlit("风元素伤害加成");
    reveal_strlit("岩元素伤害加成");
    reveal_strlit("冰元素伤害加成");
}

/// The first stat, from place `k` of the order by length on, whose name stands
/// in the text.
pub open spec fn first_named(text: Seq<char>, k: int) -> Option<int>
    decreases STATS - k,
{
    if k >= STATS {
        None
    } else if crate::text::occurs_in(text, stat_table()[by_length(k)].0) {
        Some(by_length(k))
    } else {
        first_named(text, k + 1)
    }
}

/// The first stat of the table, from place `k` on, whose name without its first
/// character stands in the text.
pub open spec fn first_suffix(text: Seq<char>, k: int) -> Option<int>
    decreases STATS - k,
{
    if k >= STATS {
        None
    } else if crate::text::occurs_in(text, stat_table()[k].0.skip(1)) {
        Some(k)
    } else {
        first_suffix(text, k + 1)
    }
}

/// The character at a place with common misreadings undone: a `b` behind a
/// Chinese character is `力`, an `E`, `三` or `t` at the start is `生`, and `亡`
/// is `元`.
pub open spec fn unmisread(text: Seq<char>, i: int) -> char {
    let c = text[i];
    if (c == 'b' || c == 'B') && i > 0 && text[i - 1] >= '\u{80}' {
        '力'
    } else if (c == 'E' || c == '三' || c == 't') && i == 0 {
        '生'
    } else if c == '亡' {
        '元'
    } else {
        c
    }
}

/// The text with common misreadings undone.
pub open spec fn unmisread_text(text: Seq<char>) -> Seq<char> {
    Seq::new(text.len(), |i: int| unmisread(text, i))
}

/// Which stat the text names, and whether it does so only with misreadings
/// undone: by its full name, else by its full name with misreadings undone,
/// else by its name without the first character.
pub open spec fn identified(text: Seq<char>) -> Option<(int, bool)> {
    match first_named(text, 0) {
        Some(e) => Some((e, false)),
        None => match first_named(unmisread_text(text), 0) {
            Some(e) => Some((e, true)),
            None => match first_suffix(text, 0) {
                Some(e) => Some((e, false)),
                None => None,
            },
        },
    }
}

/// The digit that a letter in a number was.
pub open spec fn misread_digit(c: char) -> char {
    if c == 'n' || c == 'o' || c == 'O' {
        '0'
    } else if c == 'a' {
        '4'
    } else if c == 'l' || c == 'I' {
        '1'
    } else if c == 's' || c == 'S' {
        '5'
    } else {
        c
    }
}

/// The text with letters in numbers made digits.
pub open spec fn digits_fixed(text: Seq<char>) -> Seq<char> {
    text.map_values(|c: char| misread_digit(c))
}

/// The digit that a letter behind a point was.
pub open spec fn misread_decimal(c: char) -> char {
    if c == 'e' || c == 'E' {
        '6'
    } else if c == 'a' || c == 'A' {
        '4'
    } else if c == 'o' || c == 'O' || c == 'n' {
        '0'
    } else if c == 'l' || c == 'I' || c == 'i' {
        '1'
    } else if c == 's' || c == 'S' {
        '5'
    } else if c == 'b' || c == 'B' {
        '8'
    } else if c == 't' || c == 'T' {
        '7'
    } else if c == 'g' || c == 'q' {
        '9'
    } else if c == 'z' || c == 'Z' {
        '2'
    } else {
        c
    }
}

/// A match of a letter behind a point, with the letter made a digit.
pub open spec fn decimal_fixed(groups: Seq<Option<Seq<char>>>) -> Seq<char> {
    crate::patterns::group(groups, 1) + crate::patterns::group(groups, 2).map_values(
        |c: char| misread_decimal(c),
    ) + crate::patterns::group(groups, 3)
}

/// The first `n` parts between matches, each followed by its match with the
/// letter made a digit.
pub open spec fn letters_fixed(
    parts: Seq<Seq<char>>,
    matches: Seq<Seq<Option<Seq<char>>>>,
    n: nat,
) -> Seq<char>
    decreases n,
{
    if n == 0 {
        Seq::empty()
    } else {
        letters_fixed(parts, matches, (n - 1) as nat) + parts[n - 1] + if n - 1 < matches.len() {
            decimal_fixed(matches[n - 1])
        } else {
            Seq::empty()
        }
    }
}

/// What stays of a character: commas go, other kinds of points become points,
/// and bullets go where they are not wanted.
pub open spec fn plain_char(c: char, bullets: bool) -> Seq<char> {
    if c == ',' {
        Seq::empty()
    } else if c == '\u{FF0E}' || c == '\u{3002}' || c == '\u{00B7}' {
        seq!['.']
    } else if !bullets && (c == '\u{2022}' || c == '\u{2027}') {
        Seq::empty()
    } else {
        seq![c]
    }
}

/// What stays of a text.
pub open spec fn plain_text(text: Seq<char>, bullets: bool) -> Seq<char>
    decreases text.len(),
{
    if text.len() == 0 {
        Seq::empty()
    } else {
        plain_text(text.drop_last(), bullets) + plain_char(text.last(), bullets)
    }
}

/// A text with its numbers mended: plain points without spaces around them, and
/// no letters behind them.
pub open spec fn mended(text: Seq<char>, bullets: bool) -> Seq<char> {
    let plain = plain_text(text, bullets);
    let close = crate::patterns::replaced_matches(
        SPACE_DOT_PATTERN@,
        plain,
        SPACE_DOT_TEMPLATE@,
    );
    let parts = crate::patterns::unmatched_parts(DOT_LETTER_PATTERN@, close);
    letters_fixed(
        parts,
        crate::patterns::all_matches(DOT_LETTER_PATTERN@, close),
        parts.len(),
    )
}

/// The value of a matched number in millionths, nothing where it is not one.
pub open spec fn group_value(groups: Seq<Option<Seq<char>>>) -> Option<int> {
    crate::number::decimal_value(crate::patterns::group(groups, 1))
}

/// The value of a matched number in millionths, 0 where it is not one.
pub open spec fn group_value_or_zero(groups: Seq<Option<Seq<char>>>) -> int {
    match group_value(groups) {
        Some(v) => v,
        None => 0,
    }
}

/// The number in a text; where there is none, the one after letters are made
/// digits; else 0.
pub open spec fn number_in(text: Seq<char>) -> int {
    match crate::patterns::first_match(NUM_PATTERN@, text) {
        Some(groups) => group_value_or_zero(groups),
        None => match crate::patterns::first_match(NUM_PATTERN@, digits_fixed(text)) {
            Some(groups) => group_value_or_zero(groups),
            None => 0,
        },
    }
}

/// What a text says of a stat of the table: the key of the percentage where
/// there is a percent sign, the number, and whether it is not yet activated.
pub open spec fn reading(text: Seq<char>, entry: int) -> (Seq<char>, int, bool) {
    (
        if text.contains('%') {
            stat_table()[entry].2
        } else {
            stat_table()[entry].1
        },
        number_in(text),
        crate::text::occurs_in(text, "待激活"@),
    )
}

/// What a text with mended numbers says of a stat.
pub open spec fn stat_in(text: Seq<char>) -> Option<(Seq<char>, int, bool)> {
    match identified(text) {
        Some((e, false)) => Some(reading(text, e)),
        Some((e, true)) => Some(reading(unmisread_text(text), e)),
        None => None,
    }
}

/// Where the first stat stands whose name is in the text.
fn find_named(text: &[char]) -> (found: Option<usize>)
    ensures
        match found {
            Some(i) => first_named(text@, 0) == Some(i as int) && i < STATS,
            None => first_named(text@, 0) is None,
        },
{
    let mut k: usize = 0;
    while k < STATS
        invariant
            k <= STATS,
            first_named(text@, 0) == first_named(text@, k as int),
        decreases STATS - k,
    {
        let i: usize = stat_by_length(k);
        let name = chars_of(stat_entry(i).0);
        if has_chars(text, &name) {
            return Some(i);
        }
        k = k + 1;
    }
    None
}

/// Where the first stat stands whose name without its first character is in
/// the text.
fn find_suffix(text: &[char]) -> (found: Option<usize>)
    ensures
        match found {
            Some(i) => first_suffix(text@, 0) == Some(i as int) && i < STATS,
            None => first_suffix(text@, 0) is None,
        },
{
    let mut k: usize = 0;
    while k < STATS
        invariant
            k <= STATS,
            first_suffix(text@, 0) == first_suffix(text@, k as int),
        decreases STATS - k,
    {
        let name = chars_of(stat_entry(k).0);
        let mut suffix: Vec<char> = Vec::new();
        let mut j: usize = 1;
        while j < name.len()
            invariant
                1 <= j,
                j <= name@.len() || name@.len() == 0 && j == 1,
                suffix@ == name@.skip(1).take(j - 1),
            decreases name@.len() - j,
        {
            suffix.push(name[j]);
            j = j + 1;
            assert(name@.skip(1).take(j - 1) =~= name@.skip(1).take(j - 2).push(name@[j - 1]));
        }
        proof {
            lemma_name_nonempty(k as int);
            assert(name@.skip(1).take(j - 1) =~= name@.skip(1));
        }
        if has_chars(text, &suffix) {
            return Some(k);
        }
        k = k + 1;
    }
    None
}

proof fn lemma_name_nonempty(k: int)
    requires
        0 <= k < STATS,
    ensures
        stat_table()[k].0.len() >= 3,
{
    reveal_strlit("生命值");
    reveal_strlit("攻击力");
    reveal_strlit("防御力");
    reveal_strlit("元素精通");
    reveal_strlit("元素充能效率");
    reveal_strlit("暴击率");
    reveal_strlit("暴击伤害");
    reveal_strlit("治疗加成");
    reveal_strlit("物理伤害加成");
    reveal_strlit("火元素伤害加成");
    reveal_strlit("雷元素伤害加成");
    reveal_strlit("水元素伤害加成");
    reveal_strlit("草元素伤害加成");
    reveal_strlit("风元素伤害加成");
    reveal_strlit("岩元素伤害加成");
    reveal_strlit("冰元素伤害加成");
}

/// Undoes common misreadings.
pub fn undo_misreadings(text: &[char]) -> (out: Vec<char>)
    ensures
        out@ == unmisread_text(text@),
{
    let mut out: Vec<char> = Vec::new();
    let mut i: usize = 0;
    while i < text.len()
        invariant
            i <= text@.len(),
            out@.len() == i,
            forall|k: int| 0 <= k < i ==> #[trigger] out@[k] == unmisread(text@, k),
        decreases text@.len() - i,
    {
        let c: char = text[i];
        if (c == 'b' || c == 'B') && i > 0 && text[i - 1] >= '\u{80}' {
            out.push('力');
        } else if (c == 'E' || c == '三' || c == 't') && i == 0 {
            out.push('生');
        } else if c == '亡' {
            out.push('元');
        } else {
            out.push(c);
        }
        i = i + 1;
    }
    assert(out@ =~= unmisread_text(text@));
    out
}

/// Which stat a text names, and whether it does so only with misreadings
/// undone.
pub fn identify_stat(text: &[char]) -> (found: Option<(usize, bool)>)
    ensures
        match found {
            Some((i, u)) => identified(text@) == Some((i as int, u)) && i < STATS,
            None => identified(text@) is None,
        },
{
    if let Some(i) = find_named(text) {
        return Some((i, false));
    }
    let undone = undo_misreadings(text);
    if let Some(i) = find_named(&undone) {
        return Some((i, true));
    }
    match find_suffix(text) {
        Some(i) => Some((i, false)),
        None => None,
    }
}

/// Makes letters in numbers digits.
pub fn fix_ocr_digits(text: &[char]) -> (out: Vec<char>)
    ensures
        out@ == digits_fixed(text@),
{
    let mut out: Vec<char> = Vec::new();
    let mut i: usize = 0;
    while i < text.len()
        invariant
            i <= text@.len(),
            out@.len() == i,
            forall|k: int| 0 <= k < i ==> #[trigger] out@[k] == misread_digit(text@[k]),
        decreases text@.len() - i,
    {
        let c: char = text[i];
        let fixed: char = if c == 'n' || c == 'o' || c == 'O' {
            '0'
        } else if c == 'a' {
            '4'
        } else if c == 'l' || c == 'I' {
            '1'
        } else if c == 's' || c == 'S' {
            '5'
        } else {
            c
        };
        out.push(fixed);
        i = i + 1;
    }
    assert(out@ =~= digits_fixed(text@));
    out
}

/// The digit that a letter behind a point was.
fn fix_decimal(c: char) -> (out: char)
    ensures
        out == misread_decimal(c),
{
    if c == 'e' || c == 'E' {
        '6'
    } else if c == 'a' || c == 'A' {
        '4'
    } else if c == 'o' || c == 'O' || c == 'n' {
        '0'
    } else if c == 'l' || c == 'I' || c == 'i' {
        '1'
    } else if c == 's' || c == 'S' {
        '5'
    } else if c == 'b' || c == 'B' {
        '8'
    } else if c == 't' || c == 'T' {
        '7'
    } else if c == 'g' || c == 'q' {
        '9'
    } else if c == 'z' || c == 'Z' {
        '2'
    } else {
        c
    }
}

fn push_chars(out: &mut Vec<char>, more: &[char])
    ensures
        final(out)@ == old(out)@ + more@,
{
    let ghost start = out@;
    let mut i: usize = 0;
    while i < more.len()
        invariant
            i <= more@.len(),
            start == old(out)@,
            out@ == start + more@.take(i as int),
        decreases more@.len() - i,
    {
        out.push(more[i]);
        i = i + 1;
        assert(more@.take(i as int) =~= more@.take(i - 1).push(more@[i - 1]));
    }
    assert(more@.take(i as int) =~= more@);
}

/// Puts the parts of a text and its matches of a letter behind a point together
/// again, the letters made digits.
pub fn join_fixed(parts: &Vec<String>, matches: &Vec<Vec<Option<String>>>) -> (out: Vec<char>)
    ensures
        out@ == letters_fixed(parts.deep_view(), matches.deep_view(), parts.deep_view().len()),
{
    let mut out: Vec<char> = Vec::new();
    let mut i: usize = 0;
    while i < parts.len()
        invariant
            i <= parts@.len(),
            out@ == letters_fixed(parts.deep_view(), matches.deep_view(), i as nat),
        decreases parts@.len() - i,
    {
        let ghost before = out@;
        let part = chars_of(parts[i].as_str());
        push_chars(&mut out, &part);
        if i < matches.len() {
            let groups = &matches[i];
            let prefix = group_chars(groups, 1);
            let letter = group_chars(groups, 2);
            let suffix = group_chars(groups, 3);
            let mut fixed: Vec<char> = Vec::new();
            let mut j: usize = 0;
            while j < letter.len()
                invariant
                    j <= letter@.len(),
                    fixed@.len() == j,
                    forall|k: int| 0 <= k < j ==> #[trigger] fixed@[k] == misread_decimal(letter@[k]),
                decreases letter@.len() - j,
            {
                fixed.push(fix_decimal(letter[j]));
                j = j + 1;
            }
            assert(fixed@ =~= letter@.map_values(|c: char| misread_decimal(c)));
            push_chars(&mut out, &prefix);
            push_chars(&mut out, &fixed);
            push_chars(&mut out, &suffix);
            proof {
                assert(matches.deep_view()[i as int] == groups.deep_view());
                assert(out@ =~= before + part@ + decimal_fixed(groups.deep_view()));
            }
        } else {
            assert(out@ =~= before + part@ + Seq::<char>::empty());
        }
        assert(parts.deep_view()[i as int] == part@);
        i = i + 1;
    }
    out
}

/// Makes points plain and drops commas, and bullets where they are not wanted.
pub fn plain_chars(text: &[char], bullets: bool) -> (out: Vec<char>)
    ensures
        out@ == plain_text(text@, bullets),
{
    let mut out: Vec<char> = Vec::new();
    let mut i: usize = 0;
    while i < text.len()
        invariant
            i <= text@.len(),
            out@ == plain_text(text@.take(i as int), bullets),
        decreases text@.len() - i,
    {
        let c: char = text[i];
        let ghost before = out@;
        proof {
            assert(text@.take(i + 1).drop_last() == text@.take(i as int));
        }
        if c == ',' {
        } else if c == '\u{FF0E}' || c == '\u{3002}' || c == '\u{00B7}' {
            out.push('.');
        } else if !bullets && (c == '\u{2022}' || c == '\u{2027}') {
        } else {
            out.push(c);
        }
        assert(out@ =~= before + plain_char(c, bullets));
        i = i + 1;
    }
    assert(text@.take(i as int) == text@);
    out
}

/// Mends the numbers in a text.
fn mend(text: &str, bullets: bool) -> (out: Vec<char>)
    ensures
        out@ == mended(text@, bullets),
{
    let chars = chars_of(text);
    let plain = string_of(&plain_chars(&chars, bullets));
    let close = replace_all(SPACE_DOT_PATTERN, plain.as_str(), SPACE_DOT_TEMPLATE);
    let parts = split(DOT_LETTER_PATTERN, close.as_str());
    let matches = captures_all(DOT_LETTER_PATTERN, close.as_str());
    join_fixed(&parts, &matches)
}

/// The value of a matched number in millionths.
pub fn value_of_groups(groups: &Vec<Option<String>>) -> (value: Option<i64>)
    ensures
        match value {
            Some(v) => group_value(groups.deep_view()) == Some(v as int),
            None => group_value(groups.deep_view()) is None,
        },
{
    parse_decimal(&group_chars(groups, 1))
}

fn value_or_zero(groups: &Vec<Option<String>>) -> (value: i64)
    ensures
        value == group_value_or_zero(groups.deep_view()),
{
    match value_of_groups(groups) {
        Some(v) => v,
        None => 0,
    }
}

/// The number in a text in millionths, 0 where there is none.
fn find_number(text: &[char]) -> (value: i64)
    ensures
        value == number_in(text@),
{
    let whole = string_of(text);
    match captures(NUM_PATTERN, whole.as_str()) {
        Some(groups) => value_or_zero(&groups),
        None => {
            let fixed = string_of(&fix_ocr_digits(text));
            match captures(NUM_PATTERN, fixed.as_str()) {
                Some(groups) => value_or_zero(&groups),
                None => 0,
            }
        },
    }
}

fn read_entry(text: &[char], entry: usize) -> (stat: ParsedStat)
    requires
        entry < STATS,
    ensures
        stat@ == reading(text@, entry as int),
{
    let value: i64 = find_number(text);
    let marker = chars_of("待激活");
    let inactive = has_chars(text, &marker);
    let mut percent = false;
    let mut i: usize = 0;
    while i < text.len()
        invariant
            i <= text@.len(),
            percent == text@.take(i as int).contains('%'),
        decreases text@.len() - i,
    {
        proof {
            assert(text@.take(i + 1) =~= text@.take(i as int).push(text@[i as int]));
            if text@.take(i as int).contains('%') {
                let j = choose|j: int|
                    0 <= j < text@.take(i as int).len() && text@.take(i as int)[j] == '%';
                assert(text@.take(i + 1)[j] == '%');
            }
            if text@[i as int] == '%' {
                assert(text@.take(i + 1)[i as int] == '%');
            }
            let s = text@.take(i + 1);
            if s.contains('%') && text@[i as int] != '%' {
                let j = choose|j: int| 0 <= j < s.len() && s[j] == '%';
                assert(text@.take(i as int)[j] == '%');
            }
        }
        if text[i] == '%' {
            percent = true;
        }
        i = i + 1;
    }
    assert(text@.take(i as int) =~= text@);
    let e = stat_entry(entry);
    let key = if percent {
        copy_of(e.2)
    } else {
        copy_of(e.1)
    };
    ParsedStat { key, value, inactive }
}

/// Reads a stat from a text.
pub fn parse_stat_from_text(text: &str) -> (stat: Option<ParsedStat>)
    ensures
        ({
            let expected = if text@.len() == 0 {
                None
            } else {
                stat_in(crate::text::trimmed(mended(text@, false)))
            };
            match stat {
                Some(s) => expected == Some(s@),
                None => expected is None,
            }
        }),
{
    if text.is_empty() {
        return None;
    }
    let chars = trim_chars(&mend(text, false));
    match identify_stat(&chars) {
        Some((entry, undone)) => {
            if undone {
                Some(read_entry(&undo_misreadings(&chars), entry))
            } else {
                Some(read_entry(&chars, entry))
            }
        },
        None => None,
    }
}

/// What a text says of a stat: its key, whether it has a percent sign, and
/// whether it is not yet activated.
pub open spec fn stat_key_in(text: Seq<char>) -> Option<(Seq<char>, bool, bool)> {
    match stat_in(text) {
        Some((key, _, inactive)) => Some((key, text.contains('%'), inactive)),
        None => None,
    }
}

/// The key of the stat that a text names, whether the text has a percent sign,
/// and whether the stat is not yet activated.
pub fn try_extract_stat_key(text: &str) -> (found: Option<(String, bool, bool)>)
    ensures
        match found {
            Some((key, pct, inactive)) => stat_key_in(text@) == Some((key@, pct, inactive)),
            None => stat_key_in(text@) is None,
        },
{
    let chars = chars_of(text);
    let percent = crate::text::has_text(text, "%");
    proof {
        reveal_strlit("%");
        assert("%"@ =~= seq!['%']);
        lemma_percent_sign(text@);
    }
    match identify_stat(&chars) {
        Some((entry, undone)) => {
            let stat = if undone {
                read_entry(&undo_misreadings(&chars), entry)
            } else {
                read_entry(&chars, entry)
            };
            Some((stat.key, percent, stat.inactive))
        },
        None => None,
    }
}

proof fn lemma_percent_sign(text: Seq<char>)
    requires
        "%"@ == seq!['%'],
    ensures
        crate::text::occurs_in(text, "%"@) == text.contains('%'),
{
    if text.contains('%') {
        let i = text.index_of('%');
        assert(text.subrange(i, i + 1) =~= "%"@);
        assert(crate::text::occurs_at(text, "%"@, i));
    }
    if crate::text::occurs_in(text, "%"@) {
        let i = choose|i: int| crate::text::occurs_at(text, "%"@, i);
        assert(text.subrange(i, i + 1)[0] == text[i]);
    }
}

/// The number in the first match, else in the match after letters are made
/// digits.
pub open spec fn extracted(text: Seq<char>) -> Option<int> {
    match crate::patterns::first_match(NUM_PATTERN@, text) {
        Some(groups) => group_value(groups),
        None => match crate::patterns::first_match(NUM_PATTERN@, digits_fixed(text)) {
            Some(groups) => group_value(groups),
            None => None,
        },
    }
}

/// Reads a number, in millionths, from a text.
pub fn extract_number(text: &str) -> (value: Option<i64>)
    ensures
        match value {
            Some(v) => extracted(mended(text@, true)) == Some(v as int),
            None => extracted(mended(text@, true)) is None,
        },
{
    let chars = mend(text, true);
    let whole = string_of(&chars);
    match captures(NUM_PATTERN, whole.as_str()) {
        Some(groups) => value_of_groups(&groups),
        None => {
            let fixed = string_of(&fix_ocr_digits(&chars));
            match captures(NUM_PATTERN, fixed.as_str()) {
                Some(groups) => value_of_groups(&groups),
                None => None,
            }
        },
    }
}

/// The key of a main stat: where only the name of a stat was read, HP, ATK and
/// DEF are percentages.
pub open spec fn main_stat_key(key: Seq<char>) -> Seq<char> {
    if key == "hp"@ {
        "hp_"@
    } else if key == "atk"@ {
        "atk_"@
    } else if key == "def"@ {
        "def_"@
    } else {
        key
    }
}

/// The key of a main stat on sands, goblets and circlets.
pub fn main_stat_key_fixup(key: &str) -> (out: String)
    ensures
        out@ == main_stat_key(key@),
{
    if same_text(key, "hp") {
        copy_of("hp_")
    } else if same_text(key, "atk") {
        copy_of("atk_")
    } else if same_text(key, "def") {
        copy_of("def_")
    } else {
        copy_of(key)
    }
}

/// The key of the artifact slot that a text names.
pub open spec fn slot_key(text: Seq<char>) -> Option<Seq<char>> {
    if crate::text::occurs_in(text, "生之花"@) {
        Some("flower"@)
    } else if crate::text::occurs_in(text, "死之羽"@) {
        Some("plume"@)
    } else if crate::text::occurs_in(text, "时之沙"@) {
        Some("sands"@)
    } else if crate::text::occurs_in(text, "空之杯"@) {
        Some("goblet"@)
    } else if crate::text::occurs_in(text, "理之冠"@) {
        Some("circlet"@)
    } else {
        None
    }
}

/// The key of the artifact slot that a text names.
pub fn match_slot_key(text: &str) -> (key: Option<&'static str>)
    ensures
        match key {
            Some(k) => slot_key(text@) == Some(k@),
            None => slot_key(text@) is None,
        },
{
    if has_text(text, "生之花") {
        Some("flower")
    } else if has_text(text, "死之羽") {
        Some("plume")
    } else if has_text(text, "时之沙") {
        Some("sands")
    } else if has_text(text, "空之杯") {
        Some("goblet")
    } else if has_text(text, "理之冠") {
        Some("circlet")
    } else {
        None
    }
}

/// The ascension phase of a level: how many of the levels 20, 40, 50, 60, 70
/// and 80 lie below it, and one more where it is such a level and was ascended
/// past it.
pub open spec fn ascension(level: int, ascended: bool) -> int {
    if level < 20 || (level == 20 && !ascended) {
        0
    } else if level < 40 || (level == 40 && !ascended) {
        1
    } else if level < 50 || (level == 50 && !ascended) {
        2
    } else if level < 60 || (level == 60 && !ascended) {
        3
    } else if level < 70 || (level == 70 && !ascended) {
        4
    } else if level < 80 || (level == 80 && !ascended) {
        5
    } else {
        6
    }
}

/// The ascension phase of a level.
pub fn level_to_ascension(level: i32, ascended: bool) -> (phase: i32)
    ensures
        phase == ascension(level as int, ascended),
{
    let thresholds: [i32; 6] = [20, 40, 50, 60, 70, 80];
    let mut i: usize = 0;
    while i < 6
        invariant
            i <= 6,
            thresholds@ == seq![20i32, 40, 50, 60, 70, 80],
            forall|k: int| 0 <= k < i ==> level > #[trigger] thresholds@[k],
        decreases 6 - i,
    {
        if i > 0 {
            assert(level > thresholds@[i - 1]);
        }
        if level < thresholds[i] {
            return i as i32;
        }
        if level == thresholds[i] {
            return if ascended {
                i as i32 + 1
            } else {
                i as i32
            };
        }
        i = i + 1;
    }
    assert(level > thresholds@[5]);
    6
}

/// The phase never falls as the level rises, and ascending adds at most one.
pub proof fn ascension_grows(a: int, b: int, x: bool, y: bool)
    requires
        a < b,
    ensures
        ascension(a, x) <= ascension(b, y),
        ascension(a, false) <= ascension(a, true) <= ascension(a, false) + 1,
        0 <= ascension(a, x) <= 6,
{
}

} // verus!
