//! The set of an artifact.
use crate::name_map::NameMap;
use crate::scanner::common::fuzzy_match::{byte_len, cleaned, fuzzy_match_map, matched};
use crate::text::{
    chars_of, same_chars, split_chars, string_of, strip_end, stripped_end, trim_chars,
};
use vstd::prelude::*;

verus! {

/// A Chinese character.
pub open spec fn is_chinese(c: char) -> bool {
    '\u{4E00}' <= c <= '\u{9FFF}'
}

/// How many Chinese characters a text has.
pub open spec fn chinese_count(text: Seq<char>) -> int
    decreases text.len(),
{
    if text.len() == 0 {
        0
    } else {
        chinese_count(text.drop_last()) + if is_chinese(text.last()) {
            1int
        } else {
            0int
        }
    }
}

/// How many Chinese characters a text has.
pub fn cn_char_count(s: &str) -> (n: usize)
    ensures
        n == chinese_count(s@),
{
    let chars = chars_of(s);
    let mut n: usize = 0;
    let mut i: usize = 0;
    while i < chars.len()
        invariant
            i <= chars@.len(),
            n <= i,
            n == chinese_count(chars@.take(i as int)),
        decreases chars@.len() - i,
    {
        assert(chars@.take(i + 1).drop_last() == chars@.take(i as int));
        if '\u{4E00}' <= chars[i] && chars[i] <= '\u{9FFF}' {
            n = n + 1;
        }
        i = i + 1;
    }
    assert(chars@.take(i as int) == chars@);
    n
}

/// A text without the colons and semicolons that end the name of a set.
pub open spec fn set_text(text: Seq<char>) -> Seq<char> {
    let a = stripped_end(crate::text::trimmed(text), '：');
    let b = stripped_end(a, ':');
    let c = stripped_end(b, '；');
    crate::text::trimmed(stripped_end(c, ';'))
}

/// A line without the colons that end the name of a set.
pub open spec fn set_line(line: Seq<char>) -> Seq<char> {
    let a = stripped_end(crate::text::trimmed(line), '：');
    crate::text::trimmed(stripped_end(a, ':'))
}

/// The first `n` lines that are long enough to be a name.
pub open spec fn long_lines(lines: Seq<Seq<char>>, n: nat) -> Seq<Seq<char>>
    decreases n,
{
    if n == 0 {
        Seq::empty()
    } else {
        let earlier = long_lines(lines, (n - 1) as nat);
        let line = set_line(lines[n - 1]);
        if byte_len(line) < 2 {
            earlier
        } else {
            earlier.push(line)
        }
    }
}

/// What is tried as the name of a set: the text without its last punctuation,
/// the text with it, and each line.
pub open spec fn set_tries(text: Seq<char>) -> Seq<Seq<char>> {
    let bare = set_text(text);
    let full = crate::text::trimmed(text);
    let lines = crate::text::pieces(text, '\n');
    seq![bare] + (if bare != full {
        seq![full]
    } else {
        Seq::empty()
    }) + long_lines(lines, lines.len())
}

/// The result is what the first text that matches anything matches.
pub open spec fn first_matching(
    tries: Seq<Seq<char>>,
    map: Map<Seq<char>, String>,
    result: Option<Seq<char>>,
) -> bool {
    match result {
        None => forall|i: int|
            0 <= i < tries.len() ==> matched(cleaned(#[trigger] tries[i]), map, None),
        Some(k) => exists|i: int|
            0 <= i < tries.len() && matched(cleaned(#[trigger] tries[i]), map, Some(k)) && forall|
                j: int,
            |
                0 <= j < i ==> matched(cleaned(#[trigger] tries[j]), map, None),
    }
}

/// The set that a text names.
pub open spec fn set_named(
    text: Seq<char>,
    sets: Map<Seq<char>, String>,
    result: Option<Seq<char>>,
) -> bool {
    if text.len() == 0 {
        result is None
    } else {
        first_matching(set_tries(text), sets, result)
    }
}

/// The key of the set that a text names.
pub fn find_set_key_in_text(text: &str, sets: &NameMap<String>) -> (key: Option<String>)
    ensures
        set_named(text@, sets@, crate::text::text_of(key)),
{
    let chars = chars_of(text);
    if chars.len() == 0 {
        return None;
    }
    let ghost tries = set_tries(text@);
    let full = trim_chars(&chars);
    let a = strip_end(&full, '：');
    let b = strip_end(&a, ':');
    let c = strip_end(&b, '；');
    let bare = trim_chars(&strip_end(&c, ';'));
    assert(tries[0] == bare@);
    let found = fuzzy_match_map(string_of(&bare).as_str(), sets);
    if found.is_some() {
        return found;
    }
    assert(matched(cleaned(tries[0]), sets@, None));
    let ghost mut done: int = 1;
    if !same_chars(&bare, &full) {
        assert(tries[1] == full@);
        let found = fuzzy_match_map(string_of(&full).as_str(), sets);
        if found.is_some() {
            return found;
        }
        proof {
            done = 2;
        }
    }
    assert(text@.skip(0) == text@);
    let lines = split_chars(&chars, 0, '\n');
    let ghost pieces = crate::text::pieces(text@, '\n');
    let mut i: usize = 0;
    while i < lines.len()
        invariant
            i <= lines@.len(),
            lines@.len() == pieces.len(),
            forall|k: int| 0 <= k < lines@.len() ==> (#[trigger] lines@[k])@ == pieces[k],
            text@.len() > 0,
            tries == set_tries(text@),
            pieces == crate::text::pieces(text@, '\n'),
            1 <= done <= 2,
            done == if set_text(text@) != crate::text::trimmed(text@) {
                2int
            } else {
                1int
            },
            tries == tries.take(done) + long_lines(pieces, pieces.len()),
            tries.len() >= done,
            forall|j: int|
                0 <= j < done + long_lines(pieces, i as nat).len() ==> matched(
                    cleaned(#[trigger] tries[j]),
                    sets@,
                    None,
                ),
        decreases lines@.len() - i,
    {
        proof {
            lemma_long_lines_prefix(pieces, i as nat, pieces.len());
            lemma_long_lines_prefix(pieces, (i + 1) as nat, pieces.len());
        }
        let a = strip_end(&trim_chars(&lines[i]), '：');
        let line = trim_chars(&strip_end(&a, ':'));
        assert(line@ == set_line(pieces[i as int]));
        let name = string_of(&line);
        let len: usize = name.as_str().len();
        if len >= 2 {
            let ghost at = done + long_lines(pieces, i as nat).len();
            assert(long_lines(pieces, (i + 1) as nat) == long_lines(pieces, i as nat).push(line@));
            assert(long_lines(pieces, (i + 1) as nat)[at - done] == line@);
            assert(tries[at] == line@);
            let found = fuzzy_match_map(name.as_str(), sets);
            if found.is_some() {
                return found;
            }
        }
        i = i + 1;
    }
    None
}

proof fn lemma_long_lines_prefix(lines: Seq<Seq<char>>, n: nat, m: nat)
    requires
        n <= m,
    ensures
        long_lines(lines, n).len() <= long_lines(lines, m).len(),
        forall|k: int|
            0 <= k < long_lines(lines, n).len() ==> #[trigger] long_lines(lines, n)[k]
                == long_lines(lines, m)[k],
    decreases m - n,
{
    if n < m {
        lemma_long_lines_prefix(lines, n, (m - 1) as nat);
    }
}

/// Where below the substats the name of the set can stand, from the lowest
/// place to the highest, for a card that is not moved down.
pub open spec fn set_rows() -> Seq<i32> {
    seq![625i32, 589, 585, 550, 545, 513, 505, 478]
}

/// The place where the name of the set stands below so many substats.
pub open spec fn set_row_below(stats: int) -> int {
    if stats == 1 {
        513
    } else if stats == 2 {
        550
    } else if stats == 3 {
        589
    } else {
        625
    }
}

/// How many substats are taken into account: one to four.
pub open spec fn counted_stats(n: int) -> int {
    if n < 1 {
        1
    } else if n > 4 {
        4
    } else {
        n
    }
}

/// The place where the name of the set is looked for first.
pub fn primary_row(stats: usize) -> (y: i32)
    ensures
        y == set_row_below(counted_stats(stats as int)),
{
    if stats <= 1 {
        513
    } else if stats == 2 {
        550
    } else if stats == 3 {
        589
    } else {
        625
    }
}

/// The places where the name of the set is looked for next.
pub fn fallback_row(i: usize) -> (y: i32)
    requires
        i < 8,
    ensures
        y == set_rows()[i as int],
{
    if i == 0 {
        625
    } else if i == 1 {
        589
    } else if i == 2 {
        585
    } else if i == 3 {
        550
    } else if i == 4 {
        545
    } else if i == 5 {
        513
    } else if i == 6 {
        505
    } else {
        478
    }
}

/// The places go from the lowest to the highest, no two of them closer than
/// three pixels, and hold each substat line, the row below the last one, and
/// the rows 40, 80 and 120 pixels above it.
pub proof fn set_rows_are_complete(i: int, j: int)
    requires
        0 <= i < j < 8,
    ensures
        set_rows()[i] >= set_rows()[j] + 3,
        forall|n: int| 0 <= n < 4 ==> set_rows().contains(
            (#[trigger] crate::scanner::artifact::regions::standard_lines()[n]).1,
        ),
        set_rows().contains(625),
        set_rows().contains(585),
        set_rows().contains(545),
        set_rows().contains(505),
{
    let r = set_rows();
    assert(r[0] == 625 && r[1] == 589 && r[2] == 585 && r[3] == 550 && r[4] == 545 && r[5] == 513
        && r[6] == 505 && r[7] == 478);
}

} // verus!
