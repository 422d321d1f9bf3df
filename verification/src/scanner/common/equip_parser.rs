//! The character who wears an item.
use crate::name_map::NameMap;
use crate::scanner::common::fuzzy_match::{cleaned, fuzzy_match_map, matched};
use crate::text::{chars_of, has_chars, replace_chars, string_of, trim_chars};
use vstd::prelude::*;

verus! {

/// A letter or a number of any script.
pub uninterp spec fn alphanumeric(c: char) -> bool;

/// `char::is_alphanumeric` tells by the character alone whether it is a letter
/// or a number, as Unicode defines them.
pub assume_specification[ char::is_alphanumeric ](c: char) -> (yes: bool)
    ensures
        yes == alphanumeric(c),
;

/// The text without some characters.
pub open spec fn without_chars(text: Seq<char>, drop: Set<char>) -> Seq<char> {
    text.filter(|c: char| !drop.contains(c))
}

/// The text without the ASCII characters and the symbols at its start.
pub open spec fn without_noise(text: Seq<char>) -> Seq<char>
    decreases text.len(),
{
    if text.len() > 0 && (text[0] <= '\u{7F}' || !alphanumeric(text[0])) {
        without_noise(text.skip(1))
    } else {
        text
    }
}

/// The mark of an equipped item in a text, also where its end was cut off.
pub open spec fn equip_mark(text: Seq<char>) -> Option<Seq<char>> {
    if crate::text::occurs_in(text, "已装备"@) {
        Some("已装备"@)
    } else if crate::text::occurs_in(text, "已装"@) {
        Some("已装"@)
    } else {
        None
    }
}

/// The name beside the mark.
pub open spec fn wearer_name(text: Seq<char>, mark: Seq<char>) -> Seq<char> {
    crate::text::trimmed(
        without_chars(
            crate::text::replaced(text, mark, Seq::empty()),
            set!['备', ':', '：', ' '],
        ),
    )
}

/// What a name matches; an empty name matches nothing.
pub open spec fn name_match(
    name: Seq<char>,
    map: Map<Seq<char>, String>,
    found: Option<Seq<char>>,
) -> bool {
    if name.len() == 0 {
        found is None
    } else {
        matched(cleaned(name), map, found)
    }
}

/// The first of two texts that is there, else an empty one.
pub open spec fn first_of(a: Option<Seq<char>>, b: Option<Seq<char>>) -> Seq<char> {
    match a {
        Some(k) => k,
        None => match b {
            Some(k) => k,
            None => Seq::empty(),
        },
    }
}

/// The key of the wearer: what the name beside the mark matches without the
/// noise at its start, else what it matches as it is; empty where there is no
/// mark or no match.
pub open spec fn wearer(text: Seq<char>, map: Map<Seq<char>, String>, key: Seq<char>) -> bool {
    match equip_mark(text) {
        Some(mark) => {
            let name = wearer_name(text, mark);
            exists|a: Option<Seq<char>>, b: Option<Seq<char>>|
                {
                    &&& #[trigger] name_match(without_noise(name), map, a)
                    &&& #[trigger] name_match(name, map, b)
                    &&& key == first_of(a, b)
                }
        },
        None => key.len() == 0,
    }
}

/// Removes some characters.
pub fn remove_chars(text: &[char], drop: &[char]) -> (out: Vec<char>)
    ensures
        out@ == without_chars(text@, drop@.to_set()),
{
    let mut out: Vec<char> = Vec::new();
    let ghost keep = |c: char| !drop@.to_set().contains(c);
    let mut i: usize = 0;
    proof {
        assert(text@.take(0).filter(keep) =~= Seq::<char>::empty()) by {
            reveal(Seq::filter);
        }
    }
    while i < text.len()
        invariant
            i <= text@.len(),
            keep == (|c: char| !drop@.to_set().contains(c)),
            out@ == text@.take(i as int).filter(keep),
        decreases text@.len() - i,
    {
        let c: char = text[i];
        let mut found = false;
        let mut j: usize = 0;
        while j < drop.len()
            invariant
                j <= drop@.len(),
                found == exists|k: int| 0 <= k < j && drop@[k] == c,
            decreases drop@.len() - j,
        {
            if drop[j] == c {
                found = true;
            }
            j = j + 1;
        }
        proof {
            assert(found == drop@.to_set().contains(c)) by {
                if found {
                    let k = choose|k: int| 0 <= k < j && drop@[k] == c;
                    assert(drop@.contains(drop@[k]));
                }
            }
            reveal(Seq::filter);
            assert(text@.take(i + 1).drop_last() == text@.take(i as int));
            assert(text@.take(i + 1).last() == text@[i as int]);
        }
        if !found {
            out.push(c);
        }
        i = i + 1;
    }
    assert(text@.take(i as int) == text@);
    out
}

/// Removes the ASCII characters and the symbols at the start.
pub fn strip_noise(text: &[char]) -> (out: Vec<char>)
    ensures
        out@ == without_noise(text@),
{
    let mut i: usize = 0;
    assert(text@.skip(0) == text@);
    while i < text.len() && (text[i] <= '\u{7F}' || !text[i].is_alphanumeric())
        invariant
            i <= text@.len(),
            without_noise(text@.skip(i as int)) == without_noise(text@),
        decreases text@.len() - i,
    {
        assert(text@.skip(i as int).skip(1) == text@.skip(i + 1));
        i = i + 1;
    }
    let mut out: Vec<char> = Vec::new();
    let mut j: usize = i;
    while j < text.len()
        invariant
            i <= j <= text@.len(),
            out@ == text@.subrange(i as int, j as int),
        decreases text@.len() - j,
    {
        out.push(text[j]);
        j = j + 1;
    }
    assert(out@ =~= text@.skip(i as int));
    out
}

fn match_name(name: &[char], map: &NameMap<String>) -> (found: Option<String>)
    ensures
        name_match(name@, map@, crate::text::text_of(found)),
{
    if name.len() == 0 {
        None
    } else {
        fuzzy_match_map(string_of(name).as_str(), map)
    }
}

/// The key of the character who wears an item.
pub fn parse_equip_location(text: &str, char_map: &NameMap<String>) -> (key: String)
    ensures
        wearer(text@, char_map@, key@),
{
    let chars = chars_of(text);
    let full = chars_of("已装备");
    let cut = chars_of("已装");
    let mark = if has_chars(&chars, &full) {
        full
    } else if has_chars(&chars, &cut) {
        cut
    } else {
        return String::new();
    };
    let none: Vec<char> = Vec::new();
    assert(none@ =~= Seq::<char>::empty());
    let rest = replace_chars(&chars, &mark, &none);
    let mut drop: Vec<char> = Vec::new();
    drop.push('备');
    drop.push(':');
    drop.push('：');
    drop.push(' ');
    assert(drop@.to_set() =~= set!['备', ':', '：', ' ']) by {
        assert(drop@[0] == '备' && drop@[1] == ':' && drop@[2] == '：' && drop@[3] == ' ');
    }
    let name = trim_chars(&remove_chars(&rest, &drop));
    assert(equip_mark(text@) == Some(mark@));
    assert(name@ == wearer_name(text@, mark@));
    let bare = strip_noise(&name);
    let first = match_name(&bare, char_map);
    let second = match_name(&name, char_map);
    let ghost a = crate::text::text_of(first);
    let ghost b = crate::text::text_of(second);
    assert(name_match(without_noise(name@), char_map@, a));
    assert(name_match(name@, char_map@, b));
    let key = match first {
        Some(k) => k,
        None => match second {
            Some(k) => k,
            None => String::new(),
        },
    };
    proof {
        let m = equip_mark(text@)->0;
        let nm = wearer_name(text@, m);
        assert(name_match(without_noise(nm), char_map@, a));
        assert(name_match(nm, char_map@, b));
        assert(key@ == first_of(a, b));
        assert(exists|a: Option<Seq<char>>, b: Option<Seq<char>>|
            {
                &&& #[trigger] name_match(without_noise(nm), char_map@, a)
                &&& #[trigger] name_match(nm, char_map@, b)
                &&& key@ == first_of(a, b)
            });
        assert(wearer(text@, char_map@, key@));
    }
    key
}

} // verus!
