//! Names in recognised texts.
use good_scanner::good_common::fuzzy_match::fuzzy_match_map as match_plain;
use good_scanner::name_map::NameMap;
use good_scanner::scanner::common::fuzzy_match::{edit_distance_chars, fuzzy_match_map};

#[test]
fn fuzzy_match_test_exact_match() {
    let mut map = NameMap::new();
    map.insert("神里绫华".to_string(), "KamisatoAyaka".to_string());
    assert_eq!(
        fuzzy_match_map("神里绫华", &map),
        Some("KamisatoAyaka".to_string())
    );
}

#[test]
fn fuzzy_match_test_substring_match() {
    let mut map = NameMap::new();
    map.insert("神里绫华".to_string(), "KamisatoAyaka".to_string());
    // OCR might produce extra noise characters around the name
    assert_eq!(
        fuzzy_match_map("·神里绫华", &map),
        Some("KamisatoAyaka".to_string())
    );
}

#[test]
fn fuzzy_match_test_no_match() {
    let map: NameMap<String> = NameMap::new();
    assert_eq!(fuzzy_match_map("随机文本", &map), None);
}

#[test]
fn test_levenshtein_short_set_name() {
    let mut map = NameMap::new();
    map.insert("教官".to_string(), "Instructor".to_string());
    map.insert("战狂".to_string(), "Berserker".to_string());
    map.insert("赌徒".to_string(), "Gambler".to_string());
    // OCR misreads "教官" as "教e" — should match via Levenshtein (distance 1)
    assert_eq!(
        fuzzy_match_map("教e", &map),
        Some("Instructor".to_string())
    );
}

#[test]
fn test_fullwidth_normalization() {
    let mut map = NameMap::new();
    map.insert("教官".to_string(), "Instructor".to_string());
    // OCR might output fullwidth 'ｅ' (U+FF45) instead of regular 'e' (U+0065)
    // This should still match after normalization
    assert_eq!(
        fuzzy_match_map("教\u{FF45}", &map),
        Some("Instructor".to_string())
    );
}

#[test]
fn fuzzy_match_test_empty_input() {
    let map: NameMap<String> = NameMap::new();
    assert_eq!(fuzzy_match_map("", &map), None);
}

/// A short misread name against all artifact sets.
#[test]
fn test_levenshtein_with_full_artifact_set_map() {
    let mut map = NameMap::new();
    let entries: &[(&str, &str)] = &[
        ("风起之日", "ADayCarvedFromRisingWinds"),
        ("悠古的磐岩", "ArchaicPetra"),
        ("晨星与月的晓歌", "AubadeOfMorningstarAndMoon"),
        ("战狂", "Berserker"),
        ("冰风迷途的勇士", "BlizzardStrayer"),
        ("染血的骑士道", "BloodstainedChivalry"),
        ("勇士之心", "BraveHeart"),
        ("炽烈的炎之魔女", "CrimsonWitchOfFlames"),
        ("深林的记忆", "DeepwoodMemories"),
        ("守护之心", "DefendersWill"),
        ("沙上楼阁史话", "DesertPavilionChronicle"),
        ("来歆余响", "EchoesOfAnOffering"),
        ("绝缘之旗印", "EmblemOfSeveredFate"),
        ("深廊终曲", "FinaleOfTheDeepGalleries"),
        ("乐园遗落之花", "FlowerOfParadiseLost"),
        ("谐律异想断章", "FragmentOfHarmonicWhimsy"),
        ("赌徒", "Gambler"),
        ("饰金之梦", "GildedDreams"),
        ("冰之川与雪之砂", "GlacierAndSnowfield"),
        ("角斗士的终幕礼", "GladiatorsFinale"),
        ("黄金剧团", "GoldenTroupe"),
        ("沉沦之心", "HeartOfDepth"),
        ("华馆梦醒形骸记", "HuskOfOpulentDreams"),
        ("教官", "Instructor"),
        ("渡过烈火的贤人", "Lavawalker"),
        ("长夜之誓", "LongNightsOath"),
        ("被怜爱的少女", "MaidenBeloved"),
        ("逐影猎人", "MarechausseeHunter"),
        ("武人", "MartialArtist"),
        ("穹境示现之夜", "NightOfTheSkysUnveiling"),
        ("回声之林夜话", "NighttimeWhispersInTheEchoingWoods"),
        ("昔日宗室之仪", "NoblesseOblige"),
        ("水仙之梦", "NymphsDream"),
        ("黑曜秘典", "ObsidianCodex"),
        ("海染砗磲", "OceanHuedClam"),
        ("苍白之火", "PaleFlame"),
        ("祭水之人", "PrayersForDestiny"),
        ("祭火之人", "PrayersForIllumination"),
        ("祭雷之人", "PrayersForWisdom"),
        ("祭冰之人", "PrayersToSpringtime"),
        ("祭风之人", "PrayersToTheFirmament"),
        ("行者之心", "ResolutionOfSojourner"),
        ("逆飞的流星", "RetracingBolide"),
        ("学士", "Scholar"),
        ("烬城勇者绘卷", "ScrollOfTheHeroOfCinderCity"),
        ("追忆之注连", "ShimenawasReminiscence"),
        ("纺月的夜歌", "SilkenMoonsSerenade"),
        ("昔时之歌", "SongOfDaysPast"),
        ("千岩牢固", "TenacityOfTheMillelith"),
        ("流放者", "TheExile"),
        ("如雷的盛怒", "ThunderingFury"),
        ("平息鸣雷的尊者", "Thundersoother"),
        ("奇迹", "TinyMiracle"),
        ("未竟的遐思", "UnfinishedReverie"),
        ("辰砂往生录", "VermillionHereafter"),
        ("翠绿之影", "ViridescentVenerer"),
        ("花海甘露之光", "VourukashasGlow"),
        ("流浪大地的乐团", "WanderersTroupe"),
    ];
    for &(zh, id) in entries {
        map.insert(zh.to_string(), id.to_string());
    }

    // A character misread as a letter
    assert_eq!(
        fuzzy_match_map("教e", &map),
        Some("Instructor".to_string()),
        "教e should match 教官 via Levenshtein with full 58-entry map"
    );

    assert_eq!(
        fuzzy_match_map("教e", &map),
        Some("Instructor".to_string()),
    );

    // Other short set names should also work
    assert_eq!(
        fuzzy_match_map("战e", &map),
        Some("Berserker".to_string()),
        "战e should match 战狂 via Levenshtein"
    );
}

fn chars(s: &str) -> Vec<char> {
    s.chars().collect()
}

#[test]
fn distance_counts_edits() {
    assert_eq!(edit_distance_chars(&chars("kitten"), &chars("sitting")), 3);
    assert_eq!(edit_distance_chars(&chars("教官"), &chars("教e")), 1);
    assert_eq!(edit_distance_chars(&chars(""), &chars("abc")), 3);
    assert_eq!(edit_distance_chars(&chars("abc"), &chars("abc")), 0);
    assert_eq!(edit_distance_chars(&chars("sitting"), &chars("kitten")), 3);
}

#[test]
fn a_way_round_is_no_shorter() {
    let words = ["kitten", "sitting", "mitten", "", "教官"];
    for a in words {
        for b in words {
            for c in words {
                let direct = edit_distance_chars(&chars(a), &chars(c));
                let first = edit_distance_chars(&chars(a), &chars(b));
                assert!(direct <= first + edit_distance_chars(&chars(b), &chars(c)));
            }
        }
    }
    // one edit after another, at most as many as were made
    assert_eq!(edit_distance_chars(&chars("kitten"), &chars("mitten")), 1);
    assert_eq!(edit_distance_chars(&chars("mitten"), &chars("mittens")), 1);
    assert_eq!(edit_distance_chars(&chars("kitten"), &chars("mittens")), 2);
}

#[test]
fn longest_contained_name_wins() {
    let mut map = NameMap::new();
    map.insert("胡桃".to_string(), "HuTao".to_string());
    map.insert("胡桃木".to_string(), "Walnut".to_string());
    assert_eq!(fuzzy_match_map("x胡桃木y", &map), Some("Walnut".to_string()));
}

#[test]
fn truncated_name_matches() {
    let mut map = NameMap::new();
    map.insert("角斗士的终幕礼".to_string(), "GladiatorsFinale".to_string());
    assert_eq!(fuzzy_match_map("斗士的终", &map), Some("GladiatorsFinale".to_string()));
}

#[test]
fn confused_characters_match() {
    let mut map = NameMap::new();
    map.insert("兹白".to_string(), "Zibai".to_string());
    assert_eq!(fuzzy_match_map("茲白", &map), Some("Zibai".to_string()));
    let mut other = NameMap::new();
    other.insert("茲白".to_string(), "Zibai".to_string());
    assert_eq!(fuzzy_match_map("兹白", &other), Some("Zibai".to_string()));
}

#[test]
fn cyrillic_lookalike_is_read_as_latin() {
    let mut map = NameMap::new();
    map.insert("e教".to_string(), "Key".to_string());
    assert_eq!(fuzzy_match_map("\u{0435}教", &map), Some("Key".to_string()));
}

#[test]
fn later_value_of_a_name_counts() {
    let mut map = NameMap::new();
    map.insert("胡桃".to_string(), "A".to_string());
    map.insert("胡桃".to_string(), "B".to_string());
    assert_eq!(map.len(), 1);
    assert_eq!(map.get("胡桃").cloned(), Some("B".to_string()));
}

#[test]
fn test_exact_match() {
    let mut map = NameMap::new();
    map.insert("神里绫华".to_string(), "KamisatoAyaka".to_string());
    assert_eq!(match_plain("神里绫华", &map), Some("KamisatoAyaka".to_string()));
}

#[test]
fn test_substring_match() {
    let mut map = NameMap::new();
    map.insert("神里绫华".to_string(), "KamisatoAyaka".to_string());
    // OCR might produce extra noise characters around the name
    assert_eq!(match_plain("·神里绫华", &map), Some("KamisatoAyaka".to_string()));
}

#[test]
fn test_no_match() {
    let map: NameMap<String> = NameMap::new();
    assert_eq!(match_plain("随机文本", &map), None);
}

#[test]
fn test_empty_input() {
    let map: NameMap<String> = NameMap::new();
    assert_eq!(match_plain("", &map), None);
}
