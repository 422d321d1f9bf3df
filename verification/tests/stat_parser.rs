//! Stats, slots and levels in recognised texts.
use good_scanner::good_common::stat_parser::{
    extract_number, level_to_ascension, main_stat_key_fixup, match_slot_key, parse_stat_from_text,
    try_extract_stat_key,
};

/// Values are in millionths.
fn close(value: i64, expected: f64) -> bool {
    (value as f64 / 1_000_000.0 - expected).abs() < 0.01
}

#[test]
fn test_level_to_ascension() {
    assert_eq!(level_to_ascension(1, false), 0);
    assert_eq!(level_to_ascension(20, false), 0);
    assert_eq!(level_to_ascension(20, true), 1);
    assert_eq!(level_to_ascension(40, true), 2);
    assert_eq!(level_to_ascension(50, false), 2);
    assert_eq!(level_to_ascension(80, true), 6);
    assert_eq!(level_to_ascension(90, false), 6);
}

#[test]
fn test_parse_stat_percent() {
    let result = parse_stat_from_text("\u{653B}\u{51FB}\u{529B}+46.6%"); // 攻击力+46.6%
    assert!(result.is_some());
    let stat = result.unwrap();
    assert_eq!(stat.key, "atk_");
    assert!(close(stat.value, 46.6));
    assert!(!stat.inactive);
}

#[test]
fn test_parse_stat_flat() {
    let result = parse_stat_from_text("\u{751F}\u{547D}\u{503C}+4780"); // 生命值+4780
    assert!(result.is_some());
    let stat = result.unwrap();
    assert_eq!(stat.key, "hp");
    assert!(close(stat.value, 4780.0));
}

#[test]
fn test_parse_ocr_fuzzy() {
    // "E命值+209" → 生命值 (HP flat) via first-char substitution
    let r = parse_stat_from_text("E\u{547D}\u{503C}+209");
    assert!(r.is_some());
    let s = r.unwrap();
    assert_eq!(s.key, "hp");
    assert!(close(s.value, 209.0));

    // "三命值+269" → 生命值 via suffix matching
    let r = parse_stat_from_text("\u{4E09}\u{547D}\u{503C}+269");
    assert!(r.is_some());
    assert_eq!(r.unwrap().key, "hp");

    // "攻击b+4n%" → 攻击力+40% via b→力 and n→0
    let r = parse_stat_from_text("\u{653B}\u{51FB}b+4n%");
    assert!(r.is_some());
    let s = r.unwrap();
    assert_eq!(s.key, "atk_");

    // "方御力+35" → 防御力 (DEF flat) via suffix matching
    let r = parse_stat_from_text("\u{65B9}\u{5FA1}\u{529B}+35");
    assert!(r.is_some());
    let s = r.unwrap();
    assert_eq!(s.key, "def");
    assert!(close(s.value, 35.0));

    // "亡素精通+68" → 元素精通 via 亡→元
    let r = parse_stat_from_text("\u{4EA1}\u{7D20}\u{7CBE}\u{901A}+68");
    assert!(r.is_some());
    let s = r.unwrap();
    assert_eq!(s.key, "eleMas");
    assert!(close(s.value, 68.0));
}

#[test]
fn test_parse_inactive() {
    // "生命值+4.1%（待激活）"
    let r = parse_stat_from_text("\u{751F}\u{547D}\u{503C}+4.1%\u{FF08}\u{5F85}\u{6FC0}\u{6D3B}\u{FF09}");
    assert!(r.is_some());
    let s = r.unwrap();
    assert_eq!(s.key, "hp_");
    assert!(s.inactive);
    assert!(close(s.value, 4.1)); // inactive keeps real value
}

#[test]
fn test_match_slot_key() {
    assert_eq!(match_slot_key("\u{751F}\u{4E4B}\u{82B1}"), Some("flower")); // 生之花
    assert_eq!(match_slot_key("\u{7406}\u{4E4B}\u{51A0}"), Some("circlet")); // 理之冠
    assert_eq!(match_slot_key("random"), None);
}

#[test]
fn flat_main_stats_become_percentages() {
    assert_eq!(main_stat_key_fixup("hp"), "hp_");
    assert_eq!(main_stat_key_fixup("atk"), "atk_");
    assert_eq!(main_stat_key_fixup("def"), "def_");
    assert_eq!(main_stat_key_fixup("critRate_"), "critRate_");
}

#[test]
fn numbers_are_found_in_texts() {
    assert_eq!(extract_number("暴击率+10.5%"), Some(10_500_000));
    assert_eq!(extract_number("没有数字"), None);
}

#[test]
fn keys_are_found_without_values() {
    let (key, _, inactive) = try_extract_stat_key("暴击率").unwrap();
    assert_eq!(key, "critRate_");
    assert!(!inactive);
    assert!(try_extract_stat_key("随机文本").is_none());
}

#[test]
fn texts_without_a_stat_give_none() {
    assert!(parse_stat_from_text("").is_none());
    assert!(parse_stat_from_text("abc").is_none());
}
