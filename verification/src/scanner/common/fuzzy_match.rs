//! Finding the name that a recognised text stands for.
use crate::name_map::NameMap;
use crate::text::{chars_of, has_chars, occurs_in, replace_chars, replaced, string_of};
use vstd::prelude::*;
use vstd::utf8::encode_utf8;

verus! {

/// The smaller of two numbers.
pub open spec fn min2(a: int, b: int) -> int {
    if a <= b {
        a
    } else {
        b
    }
}

/// The larger of two numbers.
pub open spec fn max2(a: int, b: int) -> int {
    if a >= b {
        a
    } else {
        b
    }
}

/// The Levenshtein distance: the fewest insertions, deletions and replacements
/// of one character that lead from one sequence to the other.
pub open spec fn distance(a: Seq<char>, b: Seq<char>) -> int
    decreases a.len() + b.len(),
{
    if a.len() == 0 {
        b.len() as int
    } else if b.len() == 0 {
        a.len() as int
    } else {
        let keep = distance(a.drop_last(), b.drop_last());
        let cost = if a.last() == b.last() {
            0int
        } else {
            1int
        };
        min2(
            min2(distance(a.drop_last(), b) + 1, distance(a, b.drop_last()) + 1),
            keep + cost,
        )
    }
}

/// The distance is at least the difference of the lengths and at most the
/// larger of them.
pub proof fn distance_range(a: Seq<char>, b: Seq<char>)
    ensures
        0 <= distance(a, b) <= max2(a.len() as int, b.len() as int),
        a.len() - b.len() <= distance(a, b),
        b.len() - a.len() <= distance(a, b),
    decreases a.len() + b.len(),
{
    if a.len() > 0 && b.len() > 0 {
        distance_range(a.drop_last(), b);
        distance_range(a, b.drop_last());
        distance_range(a.drop_last(), b.drop_last());
    }
}

/// The distance is the same in both directions.
pub proof fn distance_symmetric(a: Seq<char>, b: Seq<char>)
    ensures
        distance(a, b) == distance(b, a),
    decreases a.len() + b.len(),
{
    if a.len() > 0 && b.len() > 0 {
        distance_symmetric(a.drop_last(), b);
        distance_symmetric(a, b.drop_last());
        distance_symmetric(a.drop_last(), b.drop_last());
    }
}

/// The distance is zero exactly between equal sequences.
pub proof fn distance_zero(a: Seq<char>, b: Seq<char>)
    ensures
        distance(a, b) == 0 <==> a == b,
    decreases a.len() + b.len(),
{
    if a.len() > 0 && b.len() > 0 {
        distance_range(a.drop_last(), b);
        distance_range(a, b.drop_last());
        distance_range(a.drop_last(), b.drop_last());
        distance_zero(a.drop_last(), b.drop_last());
        assert(a == a.drop_last().push(a.last()));
        assert(b == b.drop_last().push(b.last()));
    } else {
        assert(a.len() == 0 && b.len() == 0 ==> a =~= b);
    }
}

/// The Levenshtein distance between two character sequences.
pub fn edit_distance_chars(a: &[char], b: &[char]) -> (d: usize)
    ensures
        d == distance(a@, b@),
{
    let mut row: Vec<usize> = Vec::new();
    row.push(0);
    let mut j: usize = 0;
    while j < b.len()
        invariant
            j <= b@.len(),
            row@.len() == j + 1,
            forall|k: int| 0 <= k <= j ==> #[trigger] row@[k] == k,
        decreases b@.len() - j,
    {
        j = j + 1;
        row.push(j);
    }
    proof {
        assert forall|k: int| 0 <= k <= b@.len() implies #[trigger] row@[k] == distance(
            a@.take(0),
            b@.take(k),
        ) by {}
    }
    let mut i: usize = 0;
    while i < a.len()
        invariant
            i <= a@.len(),
            row@.len() == b@.len() + 1,
            forall|k: int|
                0 <= k <= b@.len() ==> #[trigger] row@[k] == distance(
                    a@.take(i as int),
                    b@.take(k),
                ),
        decreases a@.len() - i,
    {
        let mut next: Vec<usize> = Vec::new();
        next.push(i + 1);
        proof {
            assert(b@.take(0).len() == 0);
            assert(a@.take(i + 1).len() == i + 1);
        }
        let mut j: usize = 0;
        while j < b.len()
            invariant
                i < a@.len(),
                j <= b@.len(),
                row@.len() == b@.len() + 1,
                next@.len() == j + 1,
                forall|k: int|
                    0 <= k <= b@.len() ==> #[trigger] row@[k] == distance(
                        a@.take(i as int),
                        b@.take(k),
                    ),
                forall|k: int|
                    0 <= k <= j ==> #[trigger] next@[k] == distance(a@.take(i + 1), b@.take(k)),
            decreases b@.len() - j,
        {
            let cost: usize = if a[i] == b[j] {
                0
            } else {
                1
            };
            proof {
                let ta = a@.take(i + 1);
                let tb = b@.take(j + 1);
                assert(ta.drop_last() == a@.take(i as int));
                assert(tb.drop_last() == b@.take(j as int));
                assert(ta.last() == a@[i as int]);
                assert(tb.last() == b@[j as int]);
                distance_range(a@.take(i as int), b@.take(j as int));
                distance_range(ta, tb);
                assert(row@[j as int] == distance(a@.take(i as int), b@.take(j as int)));
                assert(row@[j + 1] == distance(a@.take(i as int), tb));
                assert(next@[j as int] == distance(ta, b@.take(j as int)));
            }
            let up: usize = row[j + 1];
            let left: usize = next[j];
            let near: usize = if up < left {
                up
            } else {
                left
            };
            let keep: usize = row[j] + cost;
            let best: usize = if near < keep {
                near + 1
            } else {
                keep
            };
            next.push(best);
            j = j + 1;
        }
        row = next;
        i = i + 1;
    }
    assert(a@.take(i as int) == a@);
    assert(b@.take(b@.len() as int) == b@);
    assert(row@[b@.len() as int] == distance(a@, b@));
    row[b.len()]
}

/// The characters that names are made of: Chinese characters, corner brackets,
/// ASCII letters and digits.
pub open spec fn is_name_char(c: char) -> bool {
    ||| '\u{4E00}' <= c <= '\u{9FFF}'
    ||| c == '\u{300C}'
    ||| c == '\u{300D}'
    ||| 'a' <= c <= 'z'
    ||| 'A' <= c <= 'Z'
    ||| '0' <= c <= '9'
}

/// A lookalike of an ASCII character as that character: the fullwidth forms,
/// and Cyrillic letters of the shape of Latin ones.
pub open spec fn ascii_lookalike(c: char) -> char {
    if '\u{FF01}' <= c <= '\u{FF5E}' {
        (c as u32 - 0xFF01 + 0x21) as char
    } else if c == '\u{0410}' || c == '\u{0430}' {
        'a'
    } else if c == '\u{0412}' || c == '\u{0432}' {
        'B'
    } else if c == '\u{0415}' || c == '\u{0435}' {
        'e'
    } else if c == '\u{041A}' || c == '\u{043A}' {
        'K'
    } else if c == '\u{041C}' || c == '\u{043C}' {
        'M'
    } else if c == '\u{041D}' || c == '\u{043D}' {
        'H'
    } else if c == '\u{041E}' || c == '\u{043E}' {
        'o'
    } else if c == '\u{0420}' || c == '\u{0440}' {
        'p'
    } else if c == '\u{0421}' || c == '\u{0441}' {
        'c'
    } else if c == '\u{0422}' || c == '\u{0442}' {
        'T'
    } else if c == '\u{0423}' || c == '\u{0443}' {
        'y'
    } else if c == '\u{0425}' || c == '\u{0445}' {
        'x'
    } else {
        c
    }
}

/// The name characters of a text.
pub open spec fn name_chars(text: Seq<char>) -> Seq<char> {
    text.filter(|c: char| is_name_char(c))
}

/// The name characters of a text whose lookalikes were made ASCII.
pub open spec fn cleaned(text: Seq<char>) -> Seq<char> {
    name_chars(text.map_values(|c: char| ascii_lookalike(c)))
}

/// The length of a text in UTF-8 bytes.
pub open spec fn byte_len(text: Seq<char>) -> usize {
    encode_utf8(text).len() as usize
}

/// The text with one of two characters that are easily confused in place of
/// the other.
pub open spec fn swapped(text: Seq<char>, from: char, to: char) -> Seq<char> {
    replaced(text, seq![from], seq![to])
}

/// A non-empty name stands in the text.
pub open spec fn name_inside(
    text: Seq<char>,
    map: Map<Seq<char>, String>,
    name: Seq<char>,
) -> bool {
    map.contains_key(name) && byte_len(name) > 0 && occurs_in(text, name)
}

/// The text stands in a name.
pub open spec fn name_around(
    text: Seq<char>,
    map: Map<Seq<char>, String>,
    name: Seq<char>,
) -> bool {
    map.contains_key(name) && occurs_in(name, text)
}

/// A name is no further from the text than three tenths of its length, or one.
pub open spec fn name_close(text: Seq<char>, map: Map<Seq<char>, String>, name: Seq<char>) -> bool {
    map.contains_key(name) && distance(text, name) <= max2(
        1,
        name.len() as int * 3 / 10,
    )
}

/// No other name inside the text is longer.
pub open spec fn longest_inside(
    text: Seq<char>,
    map: Map<Seq<char>, String>,
    name: Seq<char>,
) -> bool {
    name_inside(text, map, name) && forall|n: Seq<char>| #[trigger]
        name_inside(text, map, n) ==> byte_len(n) <= byte_len(name)
}

/// No other name that is close is closer.
pub open spec fn closest(text: Seq<char>, map: Map<Seq<char>, String>, name: Seq<char>) -> bool {
    name_close(text, map, name) && forall|n: Seq<char>| #[trigger]
        name_close(text, map, n) ==> distance(text, name) <= distance(text, n)
}

/// What a cleaned text stands for: the value of the name that it is after one
/// of two easily confused characters is replaced by the other; else of the
/// name that it is; else of a longest name that it contains; else of a name
/// that contains it; else of a closest one among the names that are close.
pub open spec fn matched(
    text: Seq<char>,
    map: Map<Seq<char>, String>,
    result: Option<Seq<char>>,
) -> bool {
    let first = swapped(text, '\u{8332}', '\u{5179}');
    let second = swapped(text, '\u{5179}', '\u{8332}');
    if text.len() == 0 {
        result is None
    } else if occurs_in(text, seq!['\u{8332}']) && map.contains_key(first) {
        result == Some(map[first]@)
    } else if occurs_in(text, seq!['\u{5179}']) && map.contains_key(second) {
        result == Some(map[second]@)
    } else if map.contains_key(text) {
        result == Some(map[text]@)
    } else if exists|n: Seq<char>| name_inside(text, map, n) {
        exists|n: Seq<char>| #[trigger]
            longest_inside(text, map, n) && result == Some(map[n]@)
    } else if exists|n: Seq<char>| name_around(text, map, n) {
        exists|n: Seq<char>| #[trigger] name_around(text, map, n) && result == Some(map[n]@)
    } else if exists|n: Seq<char>| name_close(text, map, n) {
        exists|n: Seq<char>| #[trigger] closest(text, map, n) && result == Some(map[n]@)
    } else {
        result is None
    }
}

/// Whether names are made of such characters.
pub fn is_name_character(c: char) -> (yes: bool)
    ensures
        yes == is_name_char(c),
{
    ('\u{4E00}' <= c && c <= '\u{9FFF}') || c == '\u{300C}' || c == '\u{300D}' || ('a' <= c && c
        <= 'z') || ('A' <= c && c <= 'Z') || ('0' <= c && c <= '9')
}

/// Keeps the characters that names are made of.
pub fn keep_name_chars(text: &[char]) -> (out: Vec<char>)
    ensures
        out@ == name_chars(text@),
{
    let mut out: Vec<char> = Vec::new();
    let mut i: usize = 0;
    let ghost keep = |c: char| is_name_char(c);
    proof {
        assert(text@.take(0).filter(keep) =~= Seq::<char>::empty()) by {
            reveal(Seq::filter);
        }
    }
    while i < text.len()
        invariant
            i <= text@.len(),
            keep == (|c: char| is_name_char(c)),
            out@ == text@.take(i as int).filter(keep),
        decreases text@.len() - i,
    {
        proof {
            reveal(Seq::filter);
            assert(text@.take(i + 1).drop_last() == text@.take(i as int));
            assert(text@.take(i + 1).last() == text@[i as int]);
        }
        if is_name_character(text[i]) {
            out.push(text[i]);
        }
        i = i + 1;
    }
    assert(text@.take(i as int) == text@);
    out
}

/// A lookalike of an ASCII character as that character.
pub fn to_ascii_lookalike(c: char) -> (out: char)
    ensures
        out == ascii_lookalike(c),
{
    if '\u{FF01}' <= c && c <= '\u{FF5E}' {
        let code: u8 = (c as u32 - 0xFF01 + 0x21) as u8;
        code as char
    } else if c == '\u{0410}' || c == '\u{0430}' {
        'a'
    } else if c == '\u{0412}' || c == '\u{0432}' {
        'B'
    } else if c == '\u{0415}' || c == '\u{0435}' {
        'e'
    } else if c == '\u{041A}' || c == '\u{043A}' {
        'K'
    } else if c == '\u{041C}' || c == '\u{043C}' {
        'M'
    } else if c == '\u{041D}' || c == '\u{043D}' {
        'H'
    } else if c == '\u{041E}' || c == '\u{043E}' {
        'o'
    } else if c == '\u{0420}' || c == '\u{0440}' {
        'p'
    } else if c == '\u{0421}' || c == '\u{0441}' {
        'c'
    } else if c == '\u{0422}' || c == '\u{0442}' {
        'T'
    } else if c == '\u{0423}' || c == '\u{0443}' {
        'y'
    } else if c == '\u{0425}' || c == '\u{0445}' {
        'x'
    } else {
        c
    }
}

/// Cleans a recognised text: lookalikes become ASCII, and only the characters
/// that names are made of stay.
pub fn clean_text(text: &str) -> (out: Vec<char>)
    ensures
        out@ == cleaned(text@),
{
    let chars = chars_of(text);
    let mut ascii: Vec<char> = Vec::new();
    let mut i: usize = 0;
    while i < chars.len()
        invariant
            i <= chars@.len(),
            ascii@.len() == i,
            forall|k: int| 0 <= k < i ==> #[trigger] ascii@[k] == ascii_lookalike(chars@[k]),
        decreases chars@.len() - i,
    {
        ascii.push(to_ascii_lookalike(chars[i]));
        i = i + 1;
    }
    assert(ascii@ =~= chars@.map_values(|c: char| ascii_lookalike(c)));
    keep_name_chars(&ascii)
}

/// The value of the name that the characters are.
fn value_of_chars(map: &NameMap<String>, name: &[char]) -> (value: Option<String>)
    ensures
        match value {
            Some(v) => map@.contains_key(name@) && v@ == map@[name@]@,
            None => !map@.contains_key(name@),
        },
{
    let name = string_of(name);
    match map.get(name.as_str()) {
        Some(v) => Some(v.clone()),
        None => None,
    }
}

/// Where a longest name stands that the text contains.
fn find_inside(text: &[char], map: &NameMap<String>) -> (at: Option<usize>)
    ensures
        match at {
            Some(i) => i < map.names().len() && longest_inside(text@, map@, map.names()[i as int]),
            None => forall|n: Seq<char>| !name_inside(text@, map@, n),
        },
{
    let n: usize = map.len();
    let mut best: Option<usize> = None;
    let mut best_len: usize = 0;
    let mut i: usize = 0;
    while i < n
        invariant
            i <= n,
            n == map.names().len(),
            crate::name_map::lists_names(map.names(), map@),
            match best {
                Some(b) => b < i && name_inside(text@, map@, map.names()[b as int]) && best_len
                    == byte_len(map.names()[b as int]),
                None => best_len == 0,
            },
            forall|k: int|
                0 <= k < i && #[trigger] name_inside(text@, map@, map.names()[k]) ==> byte_len(
                    map.names()[k],
                ) <= best_len,
        decreases n - i,
    {
        let name = map.name_at(i);
        let chars = chars_of(name);
        let len: usize = name.len();
        if has_chars(text, &chars) && len > best_len {
            assert(name_inside(text@, map@, map.names()[i as int]));
            best = Some(i);
            best_len = len;
        }
        i = i + 1;
    }
    proof {
        assert forall|m: Seq<char>| #[trigger] name_inside(text@, map@, m) implies byte_len(m)
            <= best_len by {
            let k = choose|k: int| 0 <= k < map.names().len() && map.names()[k] == m;
            assert(name_inside(text@, map@, map.names()[k]));
        }
    }
    best
}

/// Where a name stands that contains the text.
fn find_around(text: &[char], map: &NameMap<String>) -> (at: Option<usize>)
    ensures
        match at {
            Some(i) => i < map.names().len() && name_around(text@, map@, map.names()[i as int]),
            None => forall|n: Seq<char>| !name_around(text@, map@, n),
        },
{
    let n: usize = map.len();
    let mut i: usize = 0;
    while i < n
        invariant
            i <= n,
            n == map.names().len(),
            crate::name_map::lists_names(map.names(), map@),
            forall|k: int| 0 <= k < i ==> !#[trigger] name_around(text@, map@, map.names()[k]),
        decreases n - i,
    {
        let chars = chars_of(map.name_at(i));
        if has_chars(&chars, text) {
            assert(name_around(text@, map@, map.names()[i as int]));
            return Some(i);
        }
        i = i + 1;
    }
    proof {
        assert forall|m: Seq<char>| !#[trigger] name_around(text@, map@, m) by {
            if name_around(text@, map@, m) {
                let k = choose|k: int| 0 <= k < map.names().len() && map.names()[k] == m;
                assert(name_around(text@, map@, map.names()[k]));
            }
        }
    }
    None
}

/// Where a closest name stands.
fn find_close(text: &[char], map: &NameMap<String>) -> (at: Option<usize>)
    ensures
        match at {
            Some(i) => i < map.names().len() && closest(text@, map@, map.names()[i as int]),
            None => forall|n: Seq<char>| !name_close(text@, map@, n),
        },
{
    let n: usize = map.len();
    let mut best: Option<usize> = None;
    let mut least: usize = 0;
    let mut i: usize = 0;
    while i < n
        invariant
            i <= n,
            n == map.names().len(),
            crate::name_map::lists_names(map.names(), map@),
            match best {
                Some(b) => {
                    &&& b < i
                    &&& name_close(text@, map@, map.names()[b as int])
                    &&& least == distance(text@, map.names()[b as int])
                    &&& forall|k: int|
                        0 <= k < i && #[trigger] name_close(text@, map@, map.names()[k]) ==> least
                            <= distance(text@, map.names()[k])
                },
                None => forall|k: int|
                    0 <= k < i ==> !#[trigger] name_close(text@, map@, map.names()[k]),
            },
        decreases n - i,
    {
        let chars = chars_of(map.name_at(i));
        let d: usize = edit_distance_chars(text, &chars);
        let share: u128 = chars.len() as u128 * 3 / 10;
        let limit: u128 = if share > 1 {
            share
        } else {
            1
        };
        if d as u128 <= limit && (best.is_none() || d < least) {
            assert(name_close(text@, map@, map.names()[i as int]));
            best = Some(i);
            least = d;
        }
        i = i + 1;
    }
    proof {
        assert forall|m: Seq<char>| #[trigger] name_close(text@, map@, m) implies best is Some
            && least <= distance(text@, m) by {
            let k = choose|k: int| 0 <= k < map.names().len() && map.names()[k] == m;
            assert(name_close(text@, map@, map.names()[k]));
        }
    }
    best
}

/// What a cleaned text stands for.
pub fn match_cleaned(text: &[char], map: &NameMap<String>) -> (result: Option<String>)
    ensures
        matched(
            text@,
            map@,
            crate::text::text_of(result),
        ),
{
    if text.len() == 0 {
        return None;
    }
    let mut a: Vec<char> = Vec::new();
    a.push('\u{8332}');
    let mut b: Vec<char> = Vec::new();
    b.push('\u{5179}');
    assert(a@ =~= seq!['\u{8332}']);
    assert(b@ =~= seq!['\u{5179}']);
    if has_chars(text, &a) {
        let alt = replace_chars(text, &a, &b);
        let value = value_of_chars(map, &alt);
        if value.is_some() {
            return value;
        }
    }
    if has_chars(text, &b) {
        let alt = replace_chars(text, &b, &a);
        let value = value_of_chars(map, &alt);
        if value.is_some() {
            return value;
        }
    }
    let value = value_of_chars(map, text);
    if value.is_some() {
        return value;
    }
    if let Some(i) = find_inside(text, map) {
        return Some(map.value_at(i).clone());
    }
    if let Some(i) = find_around(text, map) {
        return Some(map.value_at(i).clone());
    }
    if let Some(i) = find_close(text, map) {
        return Some(map.value_at(i).clone());
    }
    None
}

/// What a recognised text stands for.
pub fn fuzzy_match_map(text: &str, map: &NameMap<String>) -> (result: Option<String>)
    ensures
        matched(
            cleaned(text@),
            map@,
            crate::text::text_of(result),
        ),
{
    let chars = clean_text(text);
    match_cleaned(&chars, map)
}

/// A match is always a value of the map; an empty map matches nothing.
pub proof fn match_is_a_value(
    text: Seq<char>,
    map: Map<Seq<char>, String>,
    result: Option<Seq<char>>,
)
    requires
        matched(text, map, result),
    ensures
        result matches Some(v) ==> exists|n: Seq<char>| #[trigger]
            map.contains_key(n) && map[n]@ == v,
        map.dom() == Set::<Seq<char>>::empty() ==> result is None,
{
    let first = swapped(text, '\u{8332}', '\u{5179}');
    let second = swapped(text, '\u{5179}', '\u{8332}');
    assert(map.dom() == Set::<Seq<char>>::empty() ==> forall|n: Seq<char>| !#[trigger]
        map.contains_key(n));
    if result is Some {
        if occurs_in(text, seq!['\u{8332}']) && map.contains_key(first) {
        } else if occurs_in(text, seq!['\u{5179}']) && map.contains_key(second) {
        } else if map.contains_key(text) {
        } else if exists|n: Seq<char>| name_inside(text, map, n) {
            let n = choose|n: Seq<char>| #[trigger]
                longest_inside(text, map, n) && result == Some(map[n]@);
            assert(map.contains_key(n));
        } else if exists|n: Seq<char>| name_around(text, map, n) {
            let n = choose|n: Seq<char>| #[trigger]
                name_around(text, map, n) && result == Some(map[n]@);
            assert(map.contains_key(n));
        } else {
            let n = choose|n: Seq<char>| #[trigger]
                closest(text, map, n) && result == Some(map[n]@);
            assert(map.contains_key(n));
        }
    }
}

/// A text that is a name of the map, without easily confused characters,
/// matches that name.
pub proof fn exact_name_matches(
    text: Seq<char>,
    map: Map<Seq<char>, String>,
    result: Option<Seq<char>>,
)
    requires
        matched(text, map, result),
        text.len() > 0,
        map.contains_key(text),
        !text.contains('\u{8332}'),
        !text.contains('\u{5179}'),
    ensures
        result == Some(map[text]@),
{
    assert forall|c: char| !text.contains(c) implies !occurs_in(text, #[trigger] seq![c]) by {
        if occurs_in(text, seq![c]) {
            let i = choose|i: int| crate::text::occurs_at(text, seq![c], i);
            assert(text.subrange(i, i + 1)[0] == c);
            assert(text[i] == c);
        }
    }
}

} // verus!
