//! What holds of the stats, slots and levels that are recognised in texts.
use crate::good_common::stat_parser::{
    ascension, digits_fixed, identified, main_stat_key, misread_decimal, misread_digit, number_in,
    plain_char, plain_text, slot_key, stat_in, unmisread_text,
};
use crate::good_common::stat_parser::{first_named, first_suffix, stat_table, STATS};
use crate::number::is_digit;
use crate::text::occurs_in;
use vstd::prelude::*;

verus! {

/// A text that names the flower, and no text that names none of the slots, has
/// the key of the flower; likewise for the other slots. The key of a text with
/// one slot name is that of the slot, and where several stand in it, it is that
/// of the first of flower, plume, sands, goblet and circlet.
pub proof fn slot_names_give_their_keys(text: Seq<char>)
    ensures
        slot_key(text) is Some <==> occurs_in(text, "生之花"@) || occurs_in(text, "死之羽"@)
            || occurs_in(text, "时之沙"@) || occurs_in(text, "空之杯"@) || occurs_in(
            text,
            "理之冠"@,
        ),
        slot_key(text) == Some("flower"@) <==> occurs_in(text, "生之花"@),
        slot_key(text) == Some("plume"@) ==> occurs_in(text, "死之羽"@),
        slot_key(text) == Some("sands"@) ==> occurs_in(text, "时之沙"@),
        slot_key(text) == Some("goblet"@) ==> occurs_in(text, "空之杯"@),
        slot_key(text) == Some("circlet"@) ==> occurs_in(text, "理之冠"@),
        slot_key(text) matches Some(k) ==> k == "flower"@ || k == "plume"@ || k == "sands"@ || k
            == "goblet"@ || k == "circlet"@,
        occurs_in(text, "死之羽"@) ==> slot_key(text) == Some("plume"@) || slot_key(text) == Some(
            "flower"@,
        ),
        occurs_in(text, "时之沙"@) && slot_key(text) != Some("sands"@) ==> occurs_in(
            text,
            "生之花"@,
        ) || occurs_in(text, "死之羽"@),
        occurs_in(text, "空之杯"@) && slot_key(text) != Some("goblet"@) ==> occurs_in(
            text,
            "生之花"@,
        ) || occurs_in(text, "死之羽"@) || occurs_in(text, "时之沙"@),
        occurs_in(text, "理之冠"@) && slot_key(text) != Some("circlet"@) ==> occurs_in(
            text,
            "生之花"@,
        ) || occurs_in(text, "死之羽"@) || occurs_in(text, "时之沙"@) || occurs_in(
            text,
            "空之杯"@,
        ),
{
    lemma_slot_keys_differ();
}

/// The five slots have five keys.
pub proof fn lemma_slot_keys_differ()
    ensures
        "flower"@ != "plume"@,
        "flower"@ != "sands"@,
        "flower"@ != "goblet"@,
        "flower"@ != "circlet"@,
        "plume"@ != "sands"@,
        "plume"@ != "goblet"@,
        "plume"@ != "circlet"@,
        "sands"@ != "goblet"@,
        "sands"@ != "circlet"@,
        "goblet"@ != "circlet"@,
{
    reveal_strlit("flower");
    reveal_strlit("plume");
    reveal_strlit("sands");
    reveal_strlit("goblet");
    reveal_strlit("circlet");
    assert("flower"@[0] == 'f' && "plume"@[0] == 'p' && "sands"@[0] == 's' && "goblet"@[0] == 'g'
        && "circlet"@[0] == 'c');
}

/// A text that names a stat and no other one.
pub open spec fn names_only(text: Seq<char>, name: Seq<char>) -> bool {
    &&& occurs_in(text, name)
    &&& name != "生命值"@ ==> !occurs_in(text, "生命值"@)
    &&& name != "攻击力"@ ==> !occurs_in(text, "攻击力"@)
    &&& name != "防御力"@ ==> !occurs_in(text, "防御力"@)
    &&& name != "元素精通"@ ==> !occurs_in(text, "元素精通"@)
    &&& name != "元素充能效率"@ ==> !occurs_in(text, "元素充能效率"@)
    &&& name != "暴击率"@ ==> !occurs_in(text, "暴击率"@)
    &&& name != "暴击伤害"@ ==> !occurs_in(text, "暴击伤害"@)
    &&& name != "治疗加成"@ ==> !occurs_in(text, "治疗加成"@)
    &&& name != "物理伤害加成"@ ==> !occurs_in(text, "物理伤害加成"@)
    &&& name != "火元素伤害加成"@ ==> !occurs_in(text, "火元素伤害加成"@)
    &&& name != "雷元素伤害加成"@ ==> !occurs_in(text, "雷元素伤害加成"@)
    &&& name != "水元素伤害加成"@ ==> !occurs_in(text, "水元素伤害加成"@)
    &&& name != "草元素伤害加成"@ ==> !occurs_in(text, "草元素伤害加成"@)
    &&& name != "风元素伤害加成"@ ==> !occurs_in(text, "风元素伤害加成"@)
    &&& name != "岩元素伤害加成"@ ==> !occurs_in(text, "岩元素伤害加成"@)
    &&& name != "冰元素伤害加成"@ ==> !occurs_in(text, "冰元素伤害加成"@)
}

/// The first characters and the lengths of the stat names.
proof fn lemma_stat_names()
    ensures
        "生命值"@[0] == '生' && "生命值"@.len() == 3,
        "攻击力"@[0] == '攻' && "攻击力"@.len() == 3,
        "防御力"@[0] == '防' && "防御力"@.len() == 3,
        "元素精通"@[0] == '元' && "元素精通"@.len() == 4,
        "元素充能效率"@[0] == '元' && "元素充能效率"@.len() == 6,
        "暴击率"@[0] == '暴' && "暴击率"@.len() == 3,
        "暴击伤害"@[0] == '暴' && "暴击伤害"@.len() == 4,
        "治疗加成"@[0] == '治' && "治疗加成"@.len() == 4,
        "物理伤害加成"@[0] == '物' && "物理伤害加成"@.len() == 6,
        "火元素伤害加成"@[0] == '火' && "火元素伤害加成"@.len() == 7,
        "雷元素伤害加成"@[0] == '雷' && "雷元素伤害加成"@.len() == 7,
        "水元素伤害加成"@[0] == '水' && "水元素伤害加成"@.len() == 7,
        "草元素伤害加成"@[0] == '草' && "草元素伤害加成"@.len() == 7,
        "风元素伤害加成"@[0] == '风' && "风元素伤害加成"@.len() == 7,
        "岩元素伤害加成"@[0] == '岩' && "岩元素伤害加成"@.len() == 7,
        "冰元素伤害加成"@[0] == '冰' && "冰元素伤害加成"@.len() == 7,
{
    reveal_strlit("生命值");
    reveal_strlit("攻击力");
    reveal_strlit("防御力");
    reveal_strlit("元素精通");
    reveal_strlit("元素充能效率");
    reveal_strlit("暴击率");
    reveal_strlit("暴击伤害");
    reveal_strlit("治疗加成");
    reveal_strlit("物理伤害加成");
    reveal_strlit("火元素伤害加成");
    reveal_strlit("雷元素伤害加成");
    reveal_strlit("水元素伤害加成");
    reveal_strlit("草元素伤害加成");
    reveal_strlit("风元素伤害加成");
    reveal_strlit("岩元素伤害加成");
    reveal_strlit("冰元素伤害加成");
}

/// The key that a text with mended numbers gives.
pub open spec fn key_in(text: Seq<char>) -> Option<Seq<char>> {
    match stat_in(text) {
        Some((key, _, _)) => Some(key),
        None => None,
    }
}

/// A text that names one stat has the key of that stat; HP, ATK and DEF have one
/// key for the percentage and one for the flat value, and the percent sign tells
/// which it is. The value is the number in the text, and the stat is inactive
/// where the text says so.
pub proof fn stat_names_give_their_keys(text: Seq<char>)
    ensures
        names_only(text, "生命值"@) ==> key_in(text) == Some(
            if text.contains('%') {
                "hp_"@
            } else {
                "hp"@
            },
        ),
        names_only(text, "攻击力"@) ==> key_in(text) == Some(
            if text.contains('%') {
                "atk_"@
            } else {
                "atk"@
            },
        ),
        names_only(text, "防御力"@) ==> key_in(text) == Some(
            if text.contains('%') {
                "def_"@
            } else {
                "def"@
            },
        ),
        names_only(text, "元素精通"@) ==> key_in(text) == Some("eleMas"@),
        names_only(text, "元素充能效率"@) ==> key_in(text) == Some("enerRech_"@),
        names_only(text, "暴击率"@) ==> key_in(text) == Some("critRate_"@),
        names_only(text, "暴击伤害"@) ==> key_in(text) == Some("critDMG_"@),
        names_only(text, "治疗加成"@) ==> key_in(text) == Some("heal_"@),
        names_only(text, "物理伤害加成"@) ==> key_in(text) == Some("physical_dmg_"@),
        names_only(text, "火元素伤害加成"@) ==> key_in(text) == Some("pyro_dmg_"@),
        names_only(text, "雷元素伤害加成"@) ==> key_in(text) == Some("electro_dmg_"@),
        names_only(text, "水元素伤害加成"@) ==> key_in(text) == Some("hydro_dmg_"@),
        names_only(text, "草元素伤害加成"@) ==> key_in(text) == Some("dendro_dmg_"@),
        names_only(text, "风元素伤害加成"@) ==> key_in(text) == Some("anemo_dmg_"@),
        names_only(text, "岩元素伤害加成"@) ==> key_in(text) == Some("geo_dmg_"@),
        names_only(text, "冰元素伤害加成"@) ==> key_in(text) == Some("cryo_dmg_"@),
{
    lemma_stat_names();
    reveal_with_fuel(first_named, 17);
}

/// A text that names no stat in full.
pub open spec fn names_none(text: Seq<char>) -> bool {
    &&& !occurs_in(text, "生命值"@)
    &&& !occurs_in(text, "攻击力"@)
    &&& !occurs_in(text, "防御力"@)
    &&& !occurs_in(text, "元素精通"@)
    &&& !occurs_in(text, "元素充能效率"@)
    &&& !occurs_in(text, "暴击率"@)
    &&& !occurs_in(text, "暴击伤害"@)
    &&& !occurs_in(text, "治疗加成"@)
    &&& !occurs_in(text, "物理伤害加成"@)
    &&& !occurs_in(text, "火元素伤害加成"@)
    &&& !occurs_in(text, "雷元素伤害加成"@)
    &&& !occurs_in(text, "水元素伤害加成"@)
    &&& !occurs_in(text, "草元素伤害加成"@)
    &&& !occurs_in(text, "风元素伤害加成"@)
    &&& !occurs_in(text, "岩元素伤害加成"@)
    &&& !occurs_in(text, "冰元素伤害加成"@)
}

/// A text in which a stat name without its first character stands, and no other
/// one does.
pub open spec fn ends_only(text: Seq<char>, end: Seq<char>) -> bool {
    &&& occurs_in(text, end)
    &&& end != "命值"@ ==> !occurs_in(text, "命值"@)
    &&& end != "击力"@ ==> !occurs_in(text, "击力"@)
    &&& end != "御力"@ ==> !occurs_in(text, "御力"@)
    &&& end != "素精通"@ ==> !occurs_in(text, "素精通"@)
    &&& end != "素充能效率"@ ==> !occurs_in(text, "素充能效率"@)
    &&& end != "击率"@ ==> !occurs_in(text, "击率"@)
    &&& end != "击伤害"@ ==> !occurs_in(text, "击伤害"@)
    &&& end != "疗加成"@ ==> !occurs_in(text, "疗加成"@)
    &&& end != "理伤害加成"@ ==> !occurs_in(text, "理伤害加成"@)
    &&& end != "元素伤害加成"@ ==> !occurs_in(text, "元素伤害加成"@)
}

proof fn lemma_none_named(text: Seq<char>)
    requires
        names_none(text),
    ensures
        first_named(text, 0) is None,
{
    reveal_with_fuel(first_named, 17);
}

/// A text that names a stat only with misreadings undone says what the text with
/// the misreadings undone says.
pub proof fn undone_misreadings_count(text: Seq<char>)
    requires
        names_none(text),
        !names_none(unmisread_text(text)),
    ensures
        stat_in(text) == stat_in(unmisread_text(text)),
{
    lemma_none_named(text);
    reveal_with_fuel(first_named, 17);
}

proof fn lemma_stat_ends()
    ensures
        "生命值"@.skip(1) == "命值"@,
        "攻击力"@.skip(1) == "击力"@,
        "防御力"@.skip(1) == "御力"@,
        "元素精通"@.skip(1) == "素精通"@,
        "元素充能效率"@.skip(1) == "素充能效率"@,
        "暴击率"@.skip(1) == "击率"@,
        "暴击伤害"@.skip(1) == "击伤害"@,
        "治疗加成"@.skip(1) == "疗加成"@,
        "物理伤害加成"@.skip(1) == "理伤害加成"@,
        "火元素伤害加成"@.skip(1) == "元素伤害加成"@,
        "雷元素伤害加成"@.skip(1) == "元素伤害加成"@,
        "水元素伤害加成"@.skip(1) == "元素伤害加成"@,
        "草元素伤害加成"@.skip(1) == "元素伤害加成"@,
        "风元素伤害加成"@.skip(1) == "元素伤害加成"@,
        "岩元素伤害加成"@.skip(1) == "元素伤害加成"@,
        "冰元素伤害加成"@.skip(1) == "元素伤害加成"@,
        "命值"@[0] == '命' && "命值"@.len() == 2 && "命值"@.last() == '值',
        "击力"@[0] == '击' && "击力"@.len() == 2 && "击力"@.last() == '力',
        "御力"@[0] == '御' && "御力"@.len() == 2 && "御力"@.last() == '力',
        "素精通"@[0] == '素' && "素精通"@.len() == 3 && "素精通"@.last() == '通',
        "素充能效率"@[0] == '素' && "素充能效率"@.len() == 5 && "素充能效率"@.last() == '率',
        "击率"@[0] == '击' && "击率"@.len() == 2 && "击率"@.last() == '率',
        "击伤害"@[0] == '击' && "击伤害"@.len() == 3 && "击伤害"@.last() == '害',
        "疗加成"@[0] == '疗' && "疗加成"@.len() == 3 && "疗加成"@.last() == '成',
        "理伤害加成"@[0] == '理' && "理伤害加成"@.len() == 5 && "理伤害加成"@.last() == '成',
        "元素伤害加成"@[0] == '元' && "元素伤害加成"@.len() == 6 && "元素伤害加成"@.last() == '成',
{
    reveal_strlit("生命值");
    reveal_strlit("攻击力");
    reveal_strlit("防御力");
    reveal_strlit("元素精通");
    reveal_strlit("元素充能效率");
    reveal_strlit("暴击率");
    reveal_strlit("暴击伤害");
    reveal_strlit("治疗加成");
    reveal_strlit("物理伤害加成");
    reveal_strlit("火元素伤害加成");
    reveal_strlit("雷元素伤害加成");
    reveal_strlit("水元素伤害加成");
    reveal_strlit("草元素伤害加成");
    reveal_strlit("风元素伤害加成");
    reveal_strlit("岩元素伤害加成");
    reveal_strlit("冰元素伤害加成");
    reveal_strlit("命值");
    reveal_strlit("击力");
    reveal_strlit("御力");
    reveal_strlit("素精通");
    reveal_strlit("素充能效率");
    reveal_strlit("击率");
    reveal_strlit("击伤害");
    reveal_strlit("疗加成");
    reveal_strlit("理伤害加成");
    reveal_strlit("元素伤害加成");
    assert("生命值"@.skip(1) =~= "命值"@);
    assert("攻击力"@.skip(1) =~= "击力"@);
    assert("防御力"@.skip(1) =~= "御力"@);
    assert("元素精通"@.skip(1) =~= "素精通"@);
    assert("元素充能效率"@.skip(1) =~= "素充能效率"@);
    assert("暴击率"@.skip(1) =~= "击率"@);
    assert("暴击伤害"@.skip(1) =~= "击伤害"@);
    assert("治疗加成"@.skip(1) =~= "疗加成"@);
    assert("物理伤害加成"@.skip(1) =~= "理伤害加成"@);
    assert("火元素伤害加成"@.skip(1) =~= "元素伤害加成"@);
    assert("雷元素伤害加成"@.skip(1) =~= "元素伤害加成"@);
    assert("水元素伤害加成"@.skip(1) =~= "元素伤害加成"@);
    assert("草元素伤害加成"@.skip(1) =~= "元素伤害加成"@);
    assert("风元素伤害加成"@.skip(1) =~= "元素伤害加成"@);
    assert("岩元素伤害加成"@.skip(1) =~= "元素伤害加成"@);
    assert("冰元素伤害加成"@.skip(1) =~= "元素伤害加成"@);
}

/// A text that names no stat, in full or with misreadings undone, but holds a
/// stat name without its first character has the key of that stat; what is left
/// of an elemental bonus is taken for that of fire.
pub proof fn stat_ends_give_keys(text: Seq<char>)
    requires
        names_none(text),
        names_none(unmisread_text(text)),
    ensures
        ends_only(text, "命值"@) ==> key_in(text) == Some(if text.contains('%') { "hp_"@ } else { "hp"@ }),
        ends_only(text, "击力"@) ==> key_in(text) == Some(if text.contains('%') { "atk_"@ } else { "atk"@ }),
        ends_only(text, "御力"@) ==> key_in(text) == Some(if text.contains('%') { "def_"@ } else { "def"@ }),
        ends_only(text, "素精通"@) ==> key_in(text) == Some("eleMas"@),
        ends_only(text, "素充能效率"@) ==> key_in(text) == Some("enerRech_"@),
        ends_only(text, "击率"@) ==> key_in(text) == Some("critRate_"@),
        ends_only(text, "击伤害"@) ==> key_in(text) == Some("critDMG_"@),
        ends_only(text, "疗加成"@) ==> key_in(text) == Some("heal_"@),
        ends_only(text, "理伤害加成"@) ==> key_in(text) == Some("physical_dmg_"@),
        ends_only(text, "元素伤害加成"@) ==> key_in(text) == Some("pyro_dmg_"@),
        stat_in(text) is Some ==> occurs_in(text, "命值"@) || occurs_in(text, "击力"@) || occurs_in(text, "御力"@) || occurs_in(text, "素精通"@) || occurs_in(text, "素充能效率"@) || occurs_in(text, "击率"@) || occurs_in(text, "击伤害"@) || occurs_in(text, "疗加成"@) || occurs_in(text, "理伤害加成"@) || occurs_in(text, "元素伤害加成"@),
{
    lemma_none_named(text);
    lemma_none_named(unmisread_text(text));
    lemma_stat_ends();
    reveal_with_fuel(first_suffix, 17);
}

/// Where a text says something of a stat, a percent sign goes with a key that
/// ends in an underscore, for every stat but elemental mastery, and a flat HP,
/// ATK or DEF goes with none. The stat is inactive exactly where the text says
/// that it is to be activated, and the value is the number in the text.
pub proof fn percentages_have_underscores(text: Seq<char>)
    requires
        stat_in(text) is Some,
    ensures
        ({
            let (key, value, inactive) = stat_in(text)->0;
            &&& key.len() > 0
            &&& text.contains('%') && key != "eleMas"@ ==> key.last() == '_'
            &&& key == "hp"@ || key == "atk"@ || key == "def"@ ==> !text.contains('%')
            &&& key == "hp_"@ || key == "atk_"@ || key == "def_"@ ==> text.contains('%')
            &&& !names_none(text) ==> inactive == occurs_in(text, "待激活"@)
            &&& !names_none(text) ==> value == number_in(text)
        }),
{
    lemma_percent_kept(text);
    lemma_named_in_table(text, 0);
    lemma_named_in_table(unmisread_text(text), 0);
    lemma_suffix_in_table(text, 0);
    let (e, undone) = identified(text)->0;
    stat_keys_are_flat_or_percentages(e);
    if !names_none(text) {
        reveal_with_fuel(first_named, 17);
        assert(first_named(text, 0) is Some);
    }
}

proof fn lemma_named_in_table(text: Seq<char>, k: int)
    requires
        0 <= k,
    ensures
        first_named(text, k) matches Some(e) ==> 0 <= e < 16,
    decreases STATS - k,
{
    if k < STATS {
        lemma_named_in_table(text, k + 1);
    }
}

proof fn lemma_suffix_in_table(text: Seq<char>, k: int)
    requires
        0 <= k,
    ensures
        first_suffix(text, k) matches Some(e) ==> 0 <= e < 16,
    decreases STATS - k,
{
    if k < STATS {
        lemma_suffix_in_table(text, k + 1);
    }
}

/// The two keys of a stat are those of the flat value and of the percentage: HP,
/// ATK and DEF have both, elemental mastery is always flat, and the others are
/// always percentages. No two stats share a key.
pub proof fn stat_keys_are_flat_or_percentages(e: int)
    requires
        0 <= e < 16,
    ensures
        ({
            let flat = stat_table()[e].1;
            let pct = stat_table()[e].2;
            &&& flat.len() > 0 && pct.len() > 0
            &&& pct != "eleMas"@ ==> pct.last() == '_'
            &&& flat == "hp"@ || flat == "atk"@ || flat == "def"@ ==> pct == flat.push('_')
            &&& flat != "hp"@ && flat != "atk"@ && flat != "def"@ ==> pct == flat
            &&& flat != "hp_"@ && flat != "atk_"@ && flat != "def_"@
            &&& pct != "hp"@ && pct != "atk"@ && pct != "def"@
        }),
        forall|f: int|
            0 <= f < 16 && f != e ==> (#[trigger] stat_table()[f]).1 != stat_table()[e].1
                && stat_table()[f].2 != stat_table()[e].2,
{
    reveal_strlit("hp");
    reveal_strlit("atk");
    reveal_strlit("def");
    reveal_strlit("eleMas");
    reveal_strlit("enerRech_");
    reveal_strlit("critRate_");
    reveal_strlit("critDMG_");
    reveal_strlit("heal_");
    reveal_strlit("physical_dmg_");
    reveal_strlit("pyro_dmg_");
    reveal_strlit("electro_dmg_");
    reveal_strlit("hydro_dmg_");
    reveal_strlit("dendro_dmg_");
    reveal_strlit("anemo_dmg_");
    reveal_strlit("geo_dmg_");
    reveal_strlit("cryo_dmg_");
    reveal_strlit("hp_");
    reveal_strlit("atk_");
    reveal_strlit("def_");
    assert("hp"@.len() == 2 && "hp"@[0] == 'h' && "hp"@[1] == 'p' && "hp"@.last() == 'p');
    assert("atk"@.len() == 3 && "atk"@[0] == 'a' && "atk"@[1] == 't' && "atk"@.last() == 'k');
    assert("def"@.len() == 3 && "def"@[0] == 'd' && "def"@[1] == 'e' && "def"@.last() == 'f');
    assert("eleMas"@.len() == 6 && "eleMas"@[0] == 'e' && "eleMas"@[1] == 'l' && "eleMas"@.last() == 's');
    assert("enerRech_"@.len() == 9 && "enerRech_"@[0] == 'e' && "enerRech_"@[1] == 'n' && "enerRech_"@.last() == '_');
    assert("critRate_"@.len() == 9 && "critRate_"@[0] == 'c' && "critRate_"@[1] == 'r' && "critRate_"@.last() == '_');
    assert("critDMG_"@.len() == 8 && "critDMG_"@[0] == 'c' && "critDMG_"@[1] == 'r' && "critDMG_"@.last() == '_');
    assert("heal_"@.len() == 5 && "heal_"@[0] == 'h' && "heal_"@[1] == 'e' && "heal_"@.last() == '_');
    assert("physical_dmg_"@.len() == 13 && "physical_dmg_"@[0] == 'p' && "physical_dmg_"@[1] == 'h' && "physical_dmg_"@.last() == '_');
    assert("pyro_dmg_"@.len() == 9 && "pyro_dmg_"@[0] == 'p' && "pyro_dmg_"@[1] == 'y' && "pyro_dmg_"@.last() == '_');
    assert("electro_dmg_"@.len() == 12 && "electro_dmg_"@[0] == 'e' && "electro_dmg_"@[1] == 'l' && "electro_dmg_"@.last() == '_');
    assert("hydro_dmg_"@.len() == 10 && "hydro_dmg_"@[0] == 'h' && "hydro_dmg_"@[1] == 'y' && "hydro_dmg_"@.last() == '_');
    assert("dendro_dmg_"@.len() == 11 && "dendro_dmg_"@[0] == 'd' && "dendro_dmg_"@[1] == 'e' && "dendro_dmg_"@.last() == '_');
    assert("anemo_dmg_"@.len() == 10 && "anemo_dmg_"@[0] == 'a' && "anemo_dmg_"@[1] == 'n' && "anemo_dmg_"@.last() == '_');
    assert("geo_dmg_"@.len() == 8 && "geo_dmg_"@[0] == 'g' && "geo_dmg_"@[1] == 'e' && "geo_dmg_"@.last() == '_');
    assert("cryo_dmg_"@.len() == 9 && "cryo_dmg_"@[0] == 'c' && "cryo_dmg_"@[1] == 'r' && "cryo_dmg_"@.last() == '_');
    assert("hp_"@.len() == 3 && "hp_"@[0] == 'h' && "hp_"@[1] == 'p' && "hp_"@.last() == '_');
    assert("atk_"@.len() == 4 && "atk_"@[0] == 'a' && "atk_"@[1] == 't' && "atk_"@.last() == '_');
    assert("def_"@.len() == 4 && "def_"@[0] == 'd' && "def_"@[1] == 'e' && "def_"@.last() == '_');
    assert("hp"@.push('_') =~= "hp_"@);
    assert("atk"@.push('_') =~= "atk_"@);
    assert("def"@.push('_') =~= "def_"@);
    assert("critRate_"@[4] == 'R' && "critDMG_"@[4] == 'D');
}

/// Undoing misreadings keeps the length of the text, every percent sign, and
/// every character that is not one of the misread ones.
pub proof fn misreadings_are_few(text: Seq<char>, i: int)
    requires
        0 <= i < text.len(),
    ensures
        unmisread_text(text).len() == text.len(),
        text[i] != 'b' && text[i] != 'B' && text[i] != 'E' && text[i] != '三' && text[i] != 't'
            && text[i] != '亡' ==> unmisread_text(text)[i] == text[i],
        text[i] == '亡' ==> unmisread_text(text)[i] == '元',
        i > 0 && (text[i] == 'b' || text[i] == 'B') ==> unmisread_text(text)[i] == if text[i - 1]
            as int > 127 {
            '力'
        } else {
            text[i]
        },
        i == 0 && (text[i] == 'E' || text[i] == '三' || text[i] == 't') ==> unmisread_text(text)[i]
            == '生',
        i > 0 && (text[i] == 'E' || text[i] == '三' || text[i] == 't') ==> unmisread_text(text)[i]
            == text[i],
        i == 0 && (text[i] == 'b' || text[i] == 'B') ==> unmisread_text(text)[i] == text[i],
{
}

proof fn lemma_percent_kept(text: Seq<char>)
    ensures
        unmisread_text(text).contains('%') == text.contains('%'),
{
    let undone = unmisread_text(text);
    if text.contains('%') {
        let i = choose|i: int| 0 <= i < text.len() && text[i] == '%';
        assert(undone[i] == '%');
    }
    if undone.contains('%') {
        let i = choose|i: int| 0 <= i < undone.len() && undone[i] == '%';
        assert(text[i] == '%');
    }
}

/// Letters that stand for digits become digits, digits stay, and behind a point
/// a letter becomes the digit that it looks like.
pub proof fn letters_become_digits(c: char)
    ensures
        is_digit(c) ==> misread_digit(c) == c && misread_decimal(c) == c,
        misread_digit(c) != c ==> is_digit(misread_digit(c)) && !is_digit(c),
        misread_decimal(c) != c ==> is_digit(misread_decimal(c)) && !is_digit(c),
        misread_digit(c) == '0' <==> c == '0' || c == 'o' || c == 'O' || c == 'n',
        misread_digit(c) == '1' <==> c == '1' || c == 'l' || c == 'I',
        misread_digit(c) == '4' <==> c == '4' || c == 'a',
        misread_digit(c) == '5' <==> c == '5' || c == 's' || c == 'S',
        misread_decimal(c) == '0' <==> c == '0' || c == 'o' || c == 'O' || c == 'n',
        misread_decimal(c) == '1' <==> c == '1' || c == 'l' || c == 'I' || c == 'i',
        misread_decimal(c) == '2' <==> c == '2' || c == 'z' || c == 'Z',
        misread_decimal(c) == '4' <==> c == '4' || c == 'a' || c == 'A',
        misread_decimal(c) == '5' <==> c == '5' || c == 's' || c == 'S',
        misread_decimal(c) == '6' <==> c == '6' || c == 'e' || c == 'E',
        misread_decimal(c) == '7' <==> c == '7' || c == 't' || c == 'T',
        misread_decimal(c) == '8' <==> c == '8' || c == 'b' || c == 'B',
        misread_decimal(c) == '9' <==> c == '9' || c == 'g' || c == 'q',
        misread_digit(c) == '2' || misread_digit(c) == '3' || misread_digit(c) == '6'
            || misread_digit(c) == '7' || misread_digit(c) == '8' || misread_digit(c) == '9'
            ==> misread_digit(c) == c,
        misread_decimal(c) == '3' ==> c == '3',
{
}

/// Fixing the digits of a text twice changes no more than doing it once.
pub proof fn fixed_digits_stay_fixed(text: Seq<char>)
    ensures
        digits_fixed(text).len() == text.len(),
        digits_fixed(digits_fixed(text)) == digits_fixed(text),
        crate::number::all_digits(text) ==> digits_fixed(text) == text,
{
    assert(digits_fixed(digits_fixed(text)) =~= digits_fixed(text));
    if crate::number::all_digits(text) {
        assert(digits_fixed(text) =~= text);
    }
}

/// A plain text has no commas and no other kinds of points; a text without them,
/// and without bullets where these go, is plain already.
pub proof fn plain_texts_have_plain_points(text: Seq<char>, bullets: bool)
    ensures
        ({
            let plain = plain_text(text, bullets);
            &&& plain.len() <= text.len()
            &&& forall|i: int|
                0 <= i < plain.len() ==> {
                    &&& #[trigger] plain[i] != ','
                    &&& plain[i] != '．'
                    &&& plain[i] != '。'
                    &&& plain[i] != '·'
                    &&& !bullets ==> plain[i] != '•' && plain[i] != '‧'
                }
            &&& (forall|i: int|
                0 <= i < text.len() ==> {
                    &&& #[trigger] text[i] != ','
                    &&& text[i] != '．'
                    &&& text[i] != '。'
                    &&& text[i] != '·'
                    &&& text[i] != '•'
                    &&& text[i] != '‧'
                }) ==> plain == text
        }),
    decreases text.len(),
{
    if text.len() > 0 {
        plain_texts_have_plain_points(text.drop_last(), bullets);
        assert(text =~= text.drop_last().push(text.last()));
        if forall|i: int|
            0 <= i < text.len() ==> {
                &&& #[trigger] text[i] != ','
                &&& text[i] != '．'
                &&& text[i] != '。'
                &&& text[i] != '·'
                &&& text[i] != '•'
                &&& text[i] != '‧'
            } {
            assert forall|i: int| 0 <= i < text.drop_last().len() implies {
                &&& #[trigger] text.drop_last()[i] != ','
                &&& text.drop_last()[i] != '．'
                &&& text.drop_last()[i] != '。'
                &&& text.drop_last()[i] != '·'
                &&& text.drop_last()[i] != '•'
                &&& text.drop_last()[i] != '‧'
            } by {
                assert(text[i] == text.drop_last()[i]);
            }
            assert(text[text.len() - 1] == text.last());
            assert(plain_text(text, bullets) =~= text);
        }
    }
}

/// Other kinds of points become points, bullets stay where they are wanted, and
/// the plain text of two texts in a row is that of the one and then the other.
pub proof fn points_become_plain(c: char)
    ensures
        c == '．' || c == '。' || c == '·' ==> plain_char(c, true) == seq!['.'] && plain_char(c, false)
            == seq!['.'],
        c == '•' || c == '‧' ==> plain_char(c, true) == seq![c] && plain_char(c, false).len() == 0,
{
}

/// One for each limit that a level lies above.
pub open spec fn limits_passed(level: int) -> int {
    (if level > 20 {
        1int
    } else {
        0
    }) + (if level > 40 {
        1int
    } else {
        0
    }) + (if level > 50 {
        1int
    } else {
        0
    }) + (if level > 60 {
        1int
    } else {
        0
    }) + (if level > 70 {
        1int
    } else {
        0
    }) + (if level > 80 {
        1int
    } else {
        0
    })
}

/// The phase of a level is the number of limits that it lies above; at a limit,
/// an ascended character or weapon is one phase further, and nowhere else does
/// it matter whether it has ascended.
pub proof fn phases_count_limits(level: int)
    ensures
        ascension(level, false) == limits_passed(level),
        ascension(level, true) == if level == 20 || level == 40 || level == 50 || level == 60
            || level == 70 || level == 80 {
            limits_passed(level) + 1
        } else {
            limits_passed(level)
        },
{
}

/// The main stat of sands, goblets and circlets is never a flat HP, ATK or DEF;
/// these become their percentages, every other key stays, and the rule changes
/// nothing the second time.
pub proof fn main_stats_are_percentages(key: Seq<char>)
    ensures
        main_stat_key(key) != "hp"@,
        main_stat_key(key) != "atk"@,
        main_stat_key(key) != "def"@,
        key == "hp"@ || key == "atk"@ || key == "def"@ ==> main_stat_key(key) == key.push('_'),
        key != "hp"@ && key != "atk"@ && key != "def"@ ==> main_stat_key(key) == key,
        main_stat_key(main_stat_key(key)) == main_stat_key(key),
{
    reveal_strlit("hp");
    reveal_strlit("atk");
    reveal_strlit("def");
    reveal_strlit("hp_");
    reveal_strlit("atk_");
    reveal_strlit("def_");
    assert("hp"@.push('_') =~= "hp_"@);
    assert("atk"@.push('_') =~= "atk_"@);
    assert("def"@.push('_') =~= "def_"@);
    assert("hp_"@.last() == '_' && "atk_"@.last() == '_' && "def_"@.last() == '_');
    assert("hp"@.last() == 'p' && "atk"@.last() == 'k' && "def"@.last() == 'f');
}

/// The number of a text is the first one in it, and where there is none the first
/// one once letters were taken for the digits they look like.
pub proof fn first_numbers_are_taken(text: Seq<char>, groups: Seq<Option<Seq<char>>>)
    requires
        groups.len() > 1,
        groups[1] is Some,
    ensures
        crate::patterns::first_match("[+\\s]?([\\d]+\\.?\\d*|\\.\\d+)"@, text) == Some(groups)
            ==> crate::good_common::stat_parser::extracted(text) == crate::number::decimal_value(
            groups[1]->0,
        ),
        crate::patterns::first_match("[+\\s]?([\\d]+\\.?\\d*|\\.\\d+)"@, text) is None
            && crate::patterns::first_match(
            "[+\\s]?([\\d]+\\.?\\d*|\\.\\d+)"@,
            crate::good_common::stat_parser::digits_fixed(text),
        ) == Some(groups) ==> crate::good_common::stat_parser::extracted(text)
            == crate::number::decimal_value(groups[1]->0),
        crate::patterns::first_match("[+\\s]?([\\d]+\\.?\\d*|\\.\\d+)"@, text) is None
            && crate::patterns::first_match(
            "[+\\s]?([\\d]+\\.?\\d*|\\.\\d+)"@,
            crate::good_common::stat_parser::digits_fixed(text),
        ) is None ==> crate::good_common::stat_parser::extracted(text) is None,
{
}

/// The key of a text is that of its stat, and it is a percentage where the text has
/// the sign.
pub proof fn keys_go_with_stats(text: Seq<char>)
    ensures
        crate::good_common::stat_parser::stat_in(text) matches Some(stat) ==> (
        crate::good_common::stat_parser::stat_key_in(text) matches Some(named) && named.0 == stat.0
            && named.1 == text.contains('%') && named.2 == stat.2),
        crate::good_common::stat_parser::stat_in(text) is None
            ==> crate::good_common::stat_parser::stat_key_in(text) is None,
{
}

/// A letter behind a point is taken for the digit it looks like, with what stands
/// around it; spaces around a point are left out before that.
pub proof fn letters_behind_points_are_mended(
    text: Seq<char>,
    bullets: bool,
    before: Seq<char>,
    groups: Seq<Option<Seq<char>>>,
    after: Seq<char>,
)
    requires
        groups.len() > 3,
        groups[1] is Some,
        groups[2] is Some,
        groups[3] is Some,
        ({
            let close = crate::patterns::replaced_matches(
                "(?P<d1>\\d)\\s*\\.\\s*(?P<d2>\\d)"@,
                crate::good_common::stat_parser::plain_text(text, bullets),
                "${d1}.${d2}"@,
            );
            &&& crate::patterns::unmatched_parts("(\\d+\\.)([a-zA-Z])(\\d*)"@, close) == seq![
                before,
                after,
            ]
            &&& crate::patterns::all_matches("(\\d+\\.)([a-zA-Z])(\\d*)"@, close) == seq![groups]
        }),
    ensures
        crate::good_common::stat_parser::mended(text, bullets) == before + groups[1]->0
            + groups[2]->0.map_values(
            |c: char| crate::good_common::stat_parser::misread_decimal(c),
        ) + groups[3]->0 + after,
{
    reveal_with_fuel(crate::good_common::stat_parser::letters_fixed, 3);
    let fixed = crate::good_common::stat_parser::decimal_fixed(groups);
    let letter = groups[2]->0.map_values(
        |c: char| crate::good_common::stat_parser::misread_decimal(c),
    );
    assert(fixed =~= groups[1]->0 + letter + groups[3]->0);
    let none = Seq::<char>::empty();
    assert(none + before + fixed + after + none =~= before + groups[1]->0 + letter + groups[3]->0
        + after);
}

} // verus!
