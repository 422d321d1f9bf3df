//! What holds of names that are matched and of wearers.
use crate::scanner::common::equip_parser::{
    alphanumeric, equip_mark, first_of, name_match, wearer, wearer_name, without_chars,
    without_noise,
};
use crate::scanner::common::fuzzy_match::{
    ascii_lookalike, byte_len, cleaned, distance, is_name_char, longest_inside, matched,
    name_around, name_chars, name_close, name_inside,
};
use crate::text::{occurs_at, occurs_in, replaced, trimmed};
use vstd::prelude::*;

verus! {

/// Names are made of Chinese characters, of corner brackets, and of Latin letters
/// and digits.
pub proof fn names_are_made_of(c: char)
    ensures
        is_name_char(c) <==> 0x4E00 <= c as int <= 0x9FFF || c == '「' || c == '」' || 'a' <= c
            <= 'z' || 'A' <= c <= 'Z' || '0' <= c <= '9',
{
}

/// Full-width characters become the narrow ones, Cyrillic letters the Latin ones
/// that look like them, and every other character stays.
pub proof fn lookalikes_become_plain(c: char)
    ensures
        0xFF01 <= c as int <= 0xFF5E ==> ascii_lookalike(c) as int == c as int - 0xFEE0,
        c as int <= 0x40F ==> ascii_lookalike(c) == c,
        0x446 <= c as int <= 0xFF00 ==> ascii_lookalike(c) == c,
        c as int > 0xFF5E ==> ascii_lookalike(c) == c,
        c == 'А' || c == 'а' ==> ascii_lookalike(c) == 'a',
        c == 'В' || c == 'в' ==> ascii_lookalike(c) == 'B',
        c == 'Е' || c == 'е' ==> ascii_lookalike(c) == 'e',
        c == 'К' || c == 'к' ==> ascii_lookalike(c) == 'K',
        c == 'М' || c == 'м' ==> ascii_lookalike(c) == 'M',
        c == 'Н' || c == 'н' ==> ascii_lookalike(c) == 'H',
        c == 'О' || c == 'о' ==> ascii_lookalike(c) == 'o',
        c == 'Р' || c == 'р' ==> ascii_lookalike(c) == 'p',
        c == 'С' || c == 'с' ==> ascii_lookalike(c) == 'c',
        c == 'Т' || c == 'т' ==> ascii_lookalike(c) == 'T',
        c == 'У' || c == 'у' ==> ascii_lookalike(c) == 'y',
        c == 'Х' || c == 'х' ==> ascii_lookalike(c) == 'x',
        ascii_lookalike(c) != c ==> '!' <= ascii_lookalike(c) <= '~',
        ascii_lookalike(ascii_lookalike(c)) == ascii_lookalike(c),
{
}

proof fn lemma_filter_all(text: Seq<char>, keep: spec_fn(char) -> bool)
    requires
        forall|i: int| 0 <= i < text.len() ==> keep(#[trigger] text[i]),
    ensures
        text.filter(keep) == text,
    decreases text.len(),
{
    reveal(Seq::filter);
    if text.len() > 0 {
        assert forall|i: int| 0 <= i < text.drop_last().len() implies keep(
            #[trigger] text.drop_last()[i],
        ) by {
            assert(text.drop_last()[i] == text[i]);
        }
        lemma_filter_all(text.drop_last(), keep);
        assert(keep(text[text.len() - 1]));
        assert(text =~= text.drop_last().push(text.last()));
    }
}

proof fn lemma_filter_kept(text: Seq<char>, keep: spec_fn(char) -> bool)
    ensures
        forall|i: int| 0 <= i < text.filter(keep).len() ==> keep(#[trigger] text.filter(keep)[i]),
        text.filter(keep).len() <= text.len(),
    decreases text.len(),
{
    reveal(Seq::filter);
    if text.len() > 0 {
        lemma_filter_kept(text.drop_last(), keep);
    }
}

/// A cleaned text has only characters of names; a text that has only such
/// characters is clean already.
pub proof fn cleaned_texts_are_names(text: Seq<char>)
    ensures
        cleaned(text).len() <= text.len(),
        forall|i: int| 0 <= i < cleaned(text).len() ==> is_name_char(#[trigger] cleaned(text)[i]),
        (forall|i: int| 0 <= i < text.len() ==> is_name_char(#[trigger] text[i])) ==> cleaned(text)
            == text && name_chars(text) == text,
{
    let plain = text.map_values(|c: char| ascii_lookalike(c));
    let keep = |c: char| is_name_char(c);
    lemma_filter_kept(plain, keep);
    if forall|i: int| 0 <= i < text.len() ==> is_name_char(#[trigger] text[i]) {
        assert(plain =~= text) by {
            assert forall|i: int| 0 <= i < text.len() implies plain[i] == text[i] by {
                assert(is_name_char(text[i]));
            }
        }
        lemma_filter_all(text, keep);
    }
}

/// A name is close to a text where they differ by one edit, or by no more than
/// three tenths of the length of the name.
pub proof fn close_names_differ_little(
    text: Seq<char>,
    map: Map<Seq<char>, String>,
    name: Seq<char>,
)
    requires
        map.contains_key(name),
    ensures
        name_close(text, map, name) <==> distance(text, name) <= 1 || 10 * distance(text, name) <= 3
            * name.len(),
{
}

/// A text in which a name stands, that stands in a name, or that is one edit from
/// a name, matches something.
pub proof fn near_names_are_matched(
    text: Seq<char>,
    map: Map<Seq<char>, String>,
    result: Option<Seq<char>>,
    name: Seq<char>,
)
    requires
        matched(text, map, result),
        map.contains_key(name),
        byte_len(name) > 0,
        text.len() > 0,
        occurs_in(text, name) || occurs_in(name, text) || distance(text, name) <= 1,
    ensures
        result is Some,
{
    if occurs_in(text, name) {
        assert(name_inside(text, map, name));
    }
    if occurs_in(name, text) {
        assert(name_around(text, map, name));
    }
    if distance(text, name) <= 1 {
        assert(name_close(text, map, name));
    }
}

/// A name that stands in a text and is at least as long as the name that is
/// matched.
pub open spec fn stands_inside(
    text: Seq<char>,
    map: Map<Seq<char>, String>,
    n: Seq<char>,
    value: Seq<char>,
) -> bool {
    map.contains_key(n) && occurs_in(text, n) && map[n]@ == value
}

/// A text that is not a name itself matches the longest of the names that stand
/// in it, where there are any.
pub proof fn the_longest_name_inside_is_matched(
    text: Seq<char>,
    map: Map<Seq<char>, String>,
    result: Option<Seq<char>>,
    name: Seq<char>,
)
    requires
        matched(text, map, result),
        !map.contains_key(text),
        !text.contains('茲'),
        !text.contains('兹'),
        map.contains_key(name),
        byte_len(name) > 0,
        text.len() > 0,
        occurs_in(text, name),
    ensures
        exists|n: Seq<char>| #[trigger]
            stands_inside(text, map, n, result->0) && byte_len(n) >= byte_len(name),
        result is Some,
{
    lemma_lone('茲', text);
    lemma_lone('兹', text);
    assert(name_inside(text, map, name));
    let n = choose|n: Seq<char>| #[trigger]
        longest_inside(text, map, n) && result == Some(map[n]@);
    assert(stands_inside(text, map, n, result->0));
}

proof fn lemma_lone(c: char, text: Seq<char>)
    ensures
        occurs_in(text, seq![c]) == text.contains(c),
{
    if text.contains(c) {
        let i = choose|i: int| 0 <= i < text.len() && text[i] == c;
        assert(text.subrange(i, i + 1) =~= seq![c]);
        assert(occurs_at(text, seq![c], i));
    }
    if occurs_in(text, seq![c]) {
        let i = choose|i: int| occurs_at(text, seq![c], i);
        assert(text.subrange(i, i + 1)[0] == c);
        assert(text[i] == c);
    }
}

/// A name that is written with one of two easily confused characters matches a
/// text that has the other one instead.
pub proof fn confused_characters_match(
    before: Seq<char>,
    after: Seq<char>,
    map: Map<Seq<char>, String>,
    result: Option<Seq<char>>,
)
    requires
        !before.contains('茲') && !before.contains('兹'),
        !after.contains('茲') && !after.contains('兹'),
        matched(before.push('茲') + after, map, result),
        map.contains_key(before.push('兹') + after),
    ensures
        result == Some(map[before.push('兹') + after]@),
{
    let text = before.push('茲') + after;
    assert(text[before.len() as int] == '茲');
    lemma_lone('茲', text);
    assert(text.contains('茲'));
    let pat = seq!['茲'];
    assert(text =~= before + pat + after);
    assert forall|i: int| 0 <= i < before.len() implies !#[trigger] occurs_at(
        before + pat + after,
        pat,
        i,
    ) by {
        if occurs_at(before + pat + after, pat, i) {
            assert((before + pat + after).subrange(i, i + 1)[0] == before[i]);
            assert(before.contains(before[i]));
        }
    }
    crate::text_laws::occurrences_are_replaced(before, pat, after, seq!['兹']);
    lemma_lone('茲', after);
    crate::text_laws::nothing_else_is_replaced(after, pat, seq!['兹']);
    assert(before + seq!['兹'] + after =~= before.push('兹') + after);
}

/// A text that does not say that something is worn has no wearer, and neither has
/// one without a name in it.
pub proof fn without_the_mark_nobody_wears_it(
    text: Seq<char>,
    map: Map<Seq<char>, String>,
    key: Seq<char>,
)
    requires
        wearer(text, map, key),
        !occurs_in(text, "已装"@),
        !occurs_in(text, "已装备"@),
    ensures
        key.len() == 0,
{
}

/// A name of Chinese characters, none of them one of the mark and none of the two
/// that are easily confused.
pub open spec fn plain_name(name: Seq<char>) -> bool {
    name.len() > 0 && forall|i: int|
        0 <= i < name.len() ==> plain_name_char(#[trigger] name[i])
}

/// A Chinese character that is none of the mark and none of the two that are easily
/// confused.
pub open spec fn plain_name_char(c: char) -> bool {
    &&& 0x4E00 <= c as int <= 0x9FFF
    &&& c != '已' && c != '装' && c != '备'
    &&& c != '茲' && c != '兹'
}

proof fn lemma_mark_off(name: Seq<char>, mark: Seq<char>)
    requires
        mark.len() > 0,
        !name.contains(mark[0]),
    ensures
        replaced(name + mark, mark, Seq::empty()) == name,
        occurs_in(name + mark, mark),
{
    let none = Seq::<char>::empty();
    let all = name + mark + none;
    assert(all =~= name + mark);
    assert((name + mark).subrange(name.len() as int, (name.len() + mark.len()) as int) =~= mark);
    assert(occurs_at(name + mark, mark, name.len() as int));
    assert forall|i: int| 0 <= i < name.len() implies !#[trigger] occurs_at(all, mark, i) by {
        if occurs_at(all, mark, i) {
            assert(all.subrange(i, i + mark.len())[0] == all[i]);
            assert(all[i] == name[i]);
            assert(name.contains(name[i]));
        }
    }
    crate::text_laws::occurrences_are_replaced(name, mark, none, none);
    assert(replaced(none, mark, none) =~= none);
    assert(name + none + none =~= name);
}

proof fn lemma_nothing_dropped(name: Seq<char>)
    requires
        plain_name(name),
    ensures
        without_chars(name, set!['备', ':', '：', ' ']) == name,
        trimmed(name) == name,
{
    let drop = set!['备', ':', '：', ' '];
    let keep = |c: char| !drop.contains(c);
    assert forall|i: int| 0 <= i < name.len() implies keep(#[trigger] name[i]) by {
        assert(plain_name_char(name[i]));
    }
    lemma_filter_all(name, keep);
    assert(plain_name_char(name[0]) && plain_name_char(name[name.len() - 1]));
    reveal_with_fuel(crate::text::trimmed_start, 2);
    reveal_with_fuel(crate::text::trimmed_end, 2);
}

/// A name of the map with the mark behind it is that of the wearer.
pub proof fn the_name_before_the_mark_wears_it(
    name: Seq<char>,
    map: Map<Seq<char>, String>,
    key: Seq<char>,
)
    requires
        plain_name(name),
        alphanumeric(name[0]),
        map.contains_key(name),
        wearer(name + "已装备"@, map, key),
    ensures
        key == map[name]@,
{
    let mark = "已装备"@;
    assert(mark.len() == 3 && mark[0] == '已') by {
        reveal_strlit("已装备");
    }
    let text = name + mark;
    lemma_no_char(name, '已');
    lemma_mark_off(name, mark);
    lemma_nothing_dropped(name);
    assert(equip_mark(text) == Some(mark));
    assert(wearer_name(text, mark) == name);
    assert(plain_name_char(name[0]));
    assert(without_noise(name) == name);
    let (a, b) = choose|a: Option<Seq<char>>, b: Option<Seq<char>>|
        {
            &&& #[trigger] name_match(without_noise(name), map, a)
            &&& #[trigger] name_match(name, map, b)
            &&& key == first_of(a, b)
        };
    assert forall|i: int| 0 <= i < name.len() implies is_name_char(#[trigger] name[i]) by {
        assert(plain_name_char(name[i]));
    }
    cleaned_texts_are_names(name);
    lemma_no_char(name, '茲');
    lemma_no_char(name, '兹');
    crate::scanner::common::fuzzy_match::exact_name_matches(name, map, a);
}

proof fn lemma_no_char(name: Seq<char>, c: char)
    requires
        plain_name(name),
        !plain_name_char(c),
    ensures
        !name.contains(c),
{
    if name.contains(c) {
        let i = choose|i: int| 0 <= i < name.len() && name[i] == c;
        assert(plain_name_char(name[i]));
    }
}

/// The shorter mark, which is left of the longer one where its last character was
/// not read, counts as well.
pub proof fn the_mark_may_lose_its_end(text: Seq<char>)
    ensures
        occurs_in(text, "已装备"@) ==> equip_mark(text) == Some("已装备"@),
        !occurs_in(text, "已装备"@) && occurs_in(text, "已装"@) ==> equip_mark(text) == Some(
            "已装"@,
        ),
{
}

/// A name of the map with the mark behind it is that of the wearer on a plain card
/// too.
pub proof fn the_plain_wearer_stands_beside_the_mark(
    name: Seq<char>,
    map: Map<Seq<char>, String>,
    key: Seq<char>,
)
    requires
        plain_name(name),
        map.contains_key(name),
        crate::good_common::equip_parser::wearer(name + "已装备"@, map, key),
    ensures
        key == map[name]@,
{
    let mark = "已装备"@;
    assert(mark.len() == 3 && mark[0] == '已') by {
        reveal_strlit("已装备");
    }
    lemma_no_char(name, '已');
    lemma_mark_off(name, mark);
    lemma_nothing_dropped(name);
    let drop = set![':', '：', ' '];
    let keep = |c: char| !drop.contains(c);
    assert forall|i: int| 0 <= i < name.len() implies keep(#[trigger] name[i]) by {
        assert(plain_name_char(name[i]));
    }
    lemma_filter_all(name, keep);
    assert(without_chars(name, drop) == name);
    assert(crate::good_common::equip_parser::wearer_name(name + mark) == name);
    let found = choose|found: Option<Seq<char>>| #[trigger]
        matched(name_chars(name), map, found) && key == match found {
            Some(k) => k,
            None => Seq::empty(),
        };
    assert forall|i: int| 0 <= i < name.len() implies is_name_char(#[trigger] name[i]) by {
        assert(plain_name_char(name[i]));
    }
    cleaned_texts_are_names(name);
    lemma_no_char(name, '茲');
    lemma_no_char(name, '兹');
    crate::scanner::common::fuzzy_match::exact_name_matches(name, map, found);
}

/// A plain text without the mark has no wearer.
pub proof fn without_the_mark_no_plain_wearer(
    text: Seq<char>,
    map: Map<Seq<char>, String>,
    key: Seq<char>,
)
    requires
        crate::good_common::equip_parser::wearer(text, map, key),
        !occurs_in(text, "已装备"@),
    ensures
        key.len() == 0,
{
}

/// A name that no other name of the map is nearer to the text than.
pub open spec fn no_name_is_nearer(
    text: Seq<char>,
    map: Map<Seq<char>, String>,
    n: Seq<char>,
) -> bool {
    map.contains_key(n) && forall|m: Seq<char>| #[trigger]
        map.contains_key(m) ==> distance(text, n) <= distance(text, m) || distance(text, m) > if 3
            * m.len() < 20 {
            1
        } else {
            3 * m.len() as int / 10
        }
}

/// A text that is no name, in which no name stands and that stands in none, matches
/// a name that none of the near ones is nearer than; it has a match only where a
/// name is near.
pub proof fn the_nearest_name_is_matched(
    text: Seq<char>,
    map: Map<Seq<char>, String>,
    key: Seq<char>,
)
    requires
        matched(text, map, Some(key)),
        !text.contains('\u{8332}'),
        !text.contains('\u{5179}'),
        !map.contains_key(text),
        forall|n: Seq<char>| #[trigger]
            map.contains_key(n) ==> !occurs_in(text, n) && !occurs_in(n, text),
    ensures
        exists|n: Seq<char>| #[trigger] no_name_is_nearer(text, map, n) && map[n]@ == key,
{
    assert forall|c: char| !text.contains(c) implies !occurs_in(text, #[trigger] seq![c]) by {
        if occurs_in(text, seq![c]) {
            let i = choose|i: int| occurs_at(text, seq![c], i);
            assert(text.subrange(i, i + 1)[0] == c);
            assert(text[i] == c);
        }
    }
    assert forall|n: Seq<char>| !name_inside(text, map, n) && !name_around(text, map, n) by {}
    let n = choose|n: Seq<char>| #[trigger]
        crate::scanner::common::fuzzy_match::closest(text, map, n) && Some(key) == Some(map[n]@);
    assert forall|m: Seq<char>| #[trigger] map.contains_key(m) implies distance(text, n)
        <= distance(text, m) || distance(text, m) > if 3 * m.len() < 20 {
        1
    } else {
        3 * m.len() as int / 10
    } by {
        if name_close(text, map, m) {
        }
    }
    assert(no_name_is_nearer(text, map, n));
}

/// A character that does not start a name: a plain one of the keyboard, or none of
/// a word.
pub open spec fn starts_no_name(c: char) -> bool {
    c as int <= 127 || !alphanumeric(c)
}

/// All that cannot start a name is taken off before it, and nothing more.
pub proof fn leading_noise_comes_off(noise: Seq<char>, name: Seq<char>)
    requires
        forall|i: int| 0 <= i < noise.len() ==> starts_no_name(#[trigger] noise[i]),
        name.len() > 0 ==> !starts_no_name(name[0]),
    ensures
        without_noise(noise + name) == name,
    decreases noise.len(),
{
    if noise.len() > 0 {
        assert(starts_no_name(noise[0]));
        assert((noise + name)[0] == noise[0]);
        assert((noise + name).skip(1) =~= noise.skip(1) + name);
        assert forall|i: int| 0 <= i < noise.skip(1).len() implies starts_no_name(
            #[trigger] noise.skip(1)[i],
        ) by {
            assert(starts_no_name(noise[i + 1]));
        }
        leading_noise_comes_off(noise.skip(1), name);
    } else {
        assert(noise + name =~= name);
    }
}

/// The mark may lack its last character; the whole one is looked for first.
pub proof fn marks_may_lack_their_end(text: Seq<char>)
    ensures
        occurs_in(text, "已装备"@) ==> equip_mark(text) == Some("已装备"@),
        !occurs_in(text, "已装备"@) && occurs_in(text, "已装"@) ==> equip_mark(text) == Some(
            "已装"@,
        ),
        !occurs_in(text, "已装备"@) && !occurs_in(text, "已装"@) ==> equip_mark(text) is None,
{
}

} // verus!
