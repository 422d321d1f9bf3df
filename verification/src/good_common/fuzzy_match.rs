//! Finding the name that a recognised text stands for, without undoing
//! lookalikes.
use crate::name_map::NameMap;
use crate::scanner::common::fuzzy_match::{keep_name_chars, match_cleaned, matched, name_chars};
use crate::text::chars_of;
use vstd::prelude::*;

verus! {

/// What a recognised text stands for.
pub fn fuzzy_match_map(text: &str, map: &NameMap<String>) -> (result: Option<String>)
    ensures
        matched(
            name_chars(text@),
            map@,
            crate::text::text_of(result),
        ),
{
    let chars = keep_name_chars(&chars_of(text));
    match_cleaned(&chars, map)
}

} // verus!
