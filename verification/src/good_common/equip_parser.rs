//! The character who wears an item.
use crate::good_common::fuzzy_match::fuzzy_match_map;
use crate::name_map::NameMap;
use crate::scanner::common::equip_parser::{remove_chars, without_chars};
use crate::scanner::common::fuzzy_match::{matched, name_chars};
use crate::text::{chars_of, has_chars, replace_chars, string_of, trim_chars};
use vstd::prelude::*;

verus! {

/// The name beside the mark of an equipped item.
pub open spec fn wearer_name(text: Seq<char>) -> Seq<char> {
    crate::text::trimmed(
        without_chars(
            crate::text::replaced(text, "已装备"@, Seq::empty()),
            set![':', '：', ' '],
        ),
    )
}

/// The key of the wearer: that of the name beside the mark, empty where there
/// is no mark, no name or no match.
pub open spec fn wearer(text: Seq<char>, map: Map<Seq<char>, String>, key: Seq<char>) -> bool {
    if crate::text::occurs_in(text, "已装备"@) && wearer_name(text).len() > 0 {
        exists|found: Option<Seq<char>>| #[trigger]
            matched(name_chars(wearer_name(text)), map, found) && key == match found {
                Some(k) => k,
                None => Seq::empty(),
            }
    } else {
        key.len() == 0
    }
}

/// The key of the character who wears an item.
pub fn parse_equip_location(text: &str, characters: &NameMap<String>) -> (key: String)
    ensures
        wearer(text@, characters@, key@),
{
    let chars = chars_of(text);
    let mark = chars_of("已装备");
    if has_chars(&chars, &mark) {
        let none: Vec<char> = Vec::new();
        let rest = replace_chars(&chars, &mark, &none);
        let mut drop: Vec<char> = Vec::new();
        drop.push(':');
        drop.push('：');
        drop.push(' ');
        assert(drop@.to_set() =~= set![':', '：', ' ']) by {
            assert(drop@[0] == ':' && drop@[1] == '：' && drop@[2] == ' ');
        }
        assert(none@ =~= Seq::<char>::empty());
        let name = string_of(&trim_chars(&remove_chars(&rest, &drop)));
        if !name.as_str().is_empty() {
            return match fuzzy_match_map(name.as_str(), characters) {
                Some(k) => k,
                None => String::new(),
            };
        }
    }
    String::new()
}

} // verus!
