//! Names, levels, talents and constellations of characters.
use good_scanner::scanner::character::config::GoodCharacterScannerConfig;
use good_scanner::scanner::character::constellation::{
    after_pixels, first_step, is_activated, is_listed, node_delay, probe, ConstellationStep, Probe,
};
use good_scanner::scanner::character::level::{
    derive_max_level, finalize_level, is_level_plausible, is_level_suspicious, parse_level_text,
};
use good_scanner::scanner::character::name::{
    element_for, judge_name, parse_name_and_element, zh_element_to_good, NameAction, NameReader,
    NameVerdict,
};
use good_scanner::scanner::character::scanner::{
    after_opening, is_character_suspicious, is_same_character, rescan_suspicious, sanitize_levels,
    scan_single_character, skip_delay, stage, steps_to, suspicious_indices, CharacterEvent,
    CharacterReading, GoodCharacterScanner, Next, ScanMeta, ScreenStep, SecondReading, Stage,
};
use good_scanner::scanner::character::second_pass::{PassAction, PassEvent, SecondPass};
use good_scanner::scanner::character::talents::{
    adjust_talents, max_talent_for_ascension, parse_lv_text, parse_talent_detail,
    read_talent_levels, talents_to_click,
};
use good_scanner::name_map::NameMap;
use good_scanner::scanner::common::mappings::{ConstBonus, MappingManager};
use good_scanner::scanner::common::models::{GoodCharacter, GoodTalent};
use good_scanner::scanner::common::test_utils::make_test_mappings;

fn mappings() -> MappingManager {
    let mut m = make_test_mappings();
    let mut bonuses = NameMap::new();
    bonuses.insert(
        "Furina".to_string(),
        ConstBonus { c3: Some("Q".to_string()), c5: Some("E".to_string()) },
    );
    m.character_const_bonus = bonuses;
    m
}

fn character(key: &str, level: i32, talents: (i32, i32, i32)) -> GoodCharacter {
    GoodCharacter {
        key: key.to_string(),
        level,
        constellation: 0,
        ascension: 6,
        talent: GoodTalent { auto: talents.0, skill: talents.1, burst: talents.2 },
        element: None,
    }
}

fn meta(suspicious: bool, skill: i32, burst: i32) -> ScanMeta {
    ScanMeta { talent_suspicious: suspicious, raw_skill: skill, raw_burst: burst }
}

#[test]
fn levels_are_brought_to_their_caps() {
    assert_eq!(finalize_level(90, 90), (90, false));
    assert_eq!(finalize_level(70, 78), (70, true));
    assert_eq!(finalize_level(92, 90), (92, false));
    assert_eq!(finalize_level(93, 96), (93, true));
    assert_eq!(finalize_level(97, 100), (97, true));
    assert_eq!(finalize_level(98, 100), (98, true));
    assert_eq!(finalize_level(90, 96), (95, false));
    assert_eq!(finalize_level(95, 100), (100, false));
    assert_eq!(finalize_level(3, 20), (3, false));
}

#[test]
fn levels_are_read_in_spite_of_noise() {
    assert_eq!(parse_level_text("90/90"), (90, false));
    assert_eq!(parse_level_text("等级70 ·/ 80"), (70, true));
    assert_eq!(parse_level_text("85"), (85, false));
    assert_eq!(parse_level_text("9090"), (90, false));
    assert_eq!(parse_level_text("70180"), (70, true));
    assert_eq!(parse_level_text(""), (1, false));
    assert_eq!(parse_level_text("abc"), (1, false));
    // a number too long to be one: its first digits
    assert_eq!(parse_level_text("8000000000000000000000"), (80, false));
}

#[test]
fn levels_below_their_cap_are_suspicious() {
    assert!(is_level_plausible(80, 90));
    assert!(!is_level_plausible(79, 90));
    assert!(!is_level_plausible(91, 90));
    assert!(!is_level_plausible(0, 20));
    assert!(is_level_plausible(5, 33));
    assert_eq!(derive_max_level(80, true), 90);
    assert_eq!(derive_max_level(80, false), 80);
    assert_eq!(derive_max_level(85, false), 90);
    for level in [2, 9, 91, 94, 96, 99] {
        assert!(is_level_suspicious(level, false), "{}", level);
    }
    for level in [1, 20, 85, 90, 95, 100] {
        assert!(!is_level_suspicious(level, false), "{}", level);
    }
}

#[test]
fn names_come_with_their_element() {
    let m = mappings();
    let (name, element) = parse_name_and_element("水/芙宁娜", &m.character_name_map);
    assert_eq!(name, Some("Furina".to_string()));
    assert_eq!(element, Some("水".to_string()));
    let (name, element) = parse_name_and_element("草／纳西妲", &m.character_name_map);
    assert_eq!(name, Some("Nahida".to_string()));
    assert_eq!(element, Some("草".to_string()));
    let (name, element) = parse_name_and_element("胡桃", &m.character_name_map);
    assert_eq!(name, Some("HuTao".to_string()));
    assert_eq!(element, None);
    assert_eq!(parse_name_and_element("", &m.character_name_map), (None, None));
    assert_eq!(zh_element_to_good(" 火 "), Some("Pyro".to_string()));
    assert_eq!(zh_element_to_good("光"), None);
    assert_eq!(element_for("Traveler", &Some("风".to_string())), Some("Anemo".to_string()));
    assert_eq!(element_for("Furina", &Some("水".to_string())), None);
}

#[test]
fn a_name_is_asked_for_twice() {
    let mut reader = NameReader::new(true);
    let mut actions = Vec::new();
    loop {
        let action = reader.action();
        if matches!(action, NameAction::Done) {
            break;
        }
        actions.push(action);
        reader.done(false);
    }
    assert_eq!(
        actions,
        vec![
            NameAction::AskNames,
            NameAction::AskGeneral,
            NameAction::Wait,
            NameAction::AskNames,
            NameAction::AskGeneral
        ]
    );
    let mut quick = NameReader::new(false);
    quick.done(true);
    assert!(matches!(quick.action(), NameAction::Done));
}

#[test]
fn the_first_character_ends_the_round() {
    let first = Some("Furina".to_string());
    assert!(matches!(
        judge_name(Some("Furina".to_string()), &first, true, String::new()),
        NameVerdict::Repeat
    ));
    assert!(matches!(
        judge_name(Some("Nahida".to_string()), &first, true, String::new()),
        NameVerdict::Scan(n) if n == "Nahida"
    ));
    assert!(matches!(judge_name(None, &first, true, "?".to_string()), NameVerdict::Skip));
    assert!(matches!(
        judge_name(None, &first, false, "?".to_string()),
        NameVerdict::Fail(t) if t == "?"
    ));
}

#[test]
fn constellations_are_searched_with_three_looks() {
    for count in 0..=6usize {
        let mut answers = Vec::new();
        let found = loop {
            match probe(&answers) {
                Probe::Look(node) => {
                    assert!(answers.len() < 3);
                    answers.push(node < count);
                }
                Probe::Count(n) => break n,
            }
        };
        assert_eq!(found as usize, count);
    }
}

#[test]
fn constellations_are_known_for_some() {
    let without = vec!["Aloy".to_string()];
    assert!(is_listed(&without, "Aloy"));
    assert!(matches!(first_step("Aloy", &without), ConstellationStep::Known(0)));
    assert!(matches!(first_step("Furina", &without), ConstellationStep::ByPixels));
    assert!(matches!(after_pixels((4, true)), ConstellationStep::Known(4)));
    assert!(matches!(after_pixels((4, false)), ConstellationStep::BySearch));
    assert!(is_activated("已激活"));
    assert!(!is_activated("未解锁"));
    assert!(node_delay(true, 400) >= node_delay(false, 400));
}

#[test]
fn talents_are_read_in_spite_of_noise() {
    assert_eq!(parse_lv_text("Lv.9"), 9);
    assert_eq!(parse_lv_text("Ly 1 1"), 11);
    assert_eq!(parse_lv_text("等级 6"), 6);
    assert_eq!(parse_lv_text("Lv.99"), 0);
    assert_eq!(parse_lv_text(""), 0);
    assert_eq!(parse_talent_detail("普通攻击 Lv.10"), 10);
}

#[test]
fn unread_talents_are_clicked() {
    assert_eq!(talents_to_click(0, 5, 6, false), vec![0]);
    assert!(talents_to_click(3, 5, 6, false).is_empty());
    assert_eq!(read_talent_levels(0, 5, 6, &vec![4]), (4, 5, 6));
    assert_eq!(read_talent_levels(7, 5, 6, &vec![]), (7, 5, 6));
}

#[test]
fn bonuses_are_taken_off_talents() {
    let m = mappings();
    let bonuses = &m.character_const_bonus;
    assert_eq!(adjust_talents(9, 13, 13, "Furina", 6, bonuses), (9, 10, 10, false));
    assert_eq!(adjust_talents(9, 10, 13, "Furina", 3, bonuses), (9, 10, 10, false));
    assert_eq!(adjust_talents(9, 10, 2, "Furina", 3, bonuses), (9, 10, 1, true));
    assert_eq!(adjust_talents(9, 9, 9, "Nobody", 6, bonuses), (9, 9, 9, false));
    assert_eq!(adjust_talents(7, 9, 9, "Tartaglia", 0, bonuses), (6, 9, 9, false));
    assert_eq!(adjust_talents(1, 12, 9, "Traveler", 2, bonuses), (1, 9, 9, false));
    assert_eq!(adjust_talents(1, 12, 9, "Traveler", 5, bonuses), (1, 9, 6, false));
    assert_eq!(max_talent_for_ascension(6), 10);
    assert_eq!(max_talent_for_ascension(0), 1);
}

#[test]
fn characters_are_put_together() {
    let (c, m) =
        scan_single_character("Furina".to_string(), &None, (80, true), 3, (9, 10, 13), &mappings());
    assert_eq!(c.key, "Furina");
    assert_eq!((c.level, c.ascension, c.constellation), (80, 6, 3));
    assert_eq!((c.talent.auto, c.talent.skill, c.talent.burst), (9, 10, 10));
    assert_eq!((m.raw_skill, m.raw_burst, m.talent_suspicious), (10, 13, false));
    assert_eq!(c.element, None);
}

#[test]
fn stages_alternate_their_order() {
    assert_eq!(
        (stage(false, 0), stage(false, 1), stage(false, 2)),
        (Stage::Level, Stage::Constellation, Stage::Talents)
    );
    assert_eq!(
        (stage(true, 0), stage(true, 1), stage(true, 2)),
        (Stage::Talents, Stage::Constellation, Stage::Level)
    );
}

#[test]
fn suspicious_characters_are_found() {
    assert!(!is_character_suspicious(&character("A", 90, (1, 9, 9)), Some(meta(false, 9, 9))));
    assert!(is_character_suspicious(&character("A", 9, (1, 1, 1)), None));
    assert!(is_character_suspicious(&character("A", 90, (1, 1, 9)), Some(meta(false, 1, 9))));
    assert!(is_character_suspicious(&character("A", 90, (11, 9, 9)), Some(meta(false, 9, 9))));
    assert!(is_character_suspicious(&character("A", 90, (9, 9, 9)), Some(meta(true, 9, 9))));
    let list = vec![character("A", 90, (1, 9, 9)), character("B", 92, (1, 9, 9))];
    assert_eq!(suspicious_indices(&list, &vec![meta(false, 9, 9), meta(false, 9, 9)]), vec![1]);
    assert_eq!(steps_to(3, 5), (false, 2));
    // to go back, the screen is opened again
    assert_eq!(steps_to(5, 3), (true, 3));
    assert!(is_same_character(&Some("A".to_string()), &list[0]));
    assert!(!is_same_character(&None, &list[0]));
}

#[test]
fn a_second_reading_only_improves() {
    let m = mappings();
    let mut list = vec![character("Nahida", 9, (1, 1, 9)), character("HuTao", 90, (9, 9, 9))];
    let better =
        SecondReading { level: Some((90, false)), constellation: None, talents: Some((1, 8, 9)) };
    let nahida = Some("Nahida".to_string());
    rescan_suspicious(&mut list, 0, &nahida, &better, &m);
    assert_eq!((list[0].level, list[0].ascension), (90, 6));
    assert_eq!(list[0].talent.skill, 8);
    assert_eq!(list[1].level, 90);
    let worse =
        SecondReading { level: Some((8, false)), constellation: None, talents: Some((1, 1, 1)) };
    rescan_suspicious(&mut list, 0, &nahida, &worse, &m);
    assert_eq!(list[0].level, 90);
    assert_eq!(list[0].talent.skill, 8);
}

#[test]
fn another_name_changes_nothing() {
    let m = mappings();
    let mut list = vec![character("Nahida", 9, (1, 1, 9))];
    let reading =
        SecondReading { level: Some((90, false)), constellation: Some(6), talents: Some((9, 9, 9)) };
    for name in [Some("HuTao".to_string()), None] {
        rescan_suspicious(&mut list, 0, &name, &reading, &m);
        assert_eq!((list[0].level, list[0].constellation), (9, 0));
        assert_eq!(list[0].talent.skill, 1);
    }
}

#[test]
fn a_reading_that_is_no_better_changes_nothing() {
    let m = mappings();
    let mut list = vec![character("HuTao", 80, (9, 1, 9))];
    let reading =
        SecondReading { level: Some((80, true)), constellation: Some(0), talents: Some((1, 8, 8)) };
    rescan_suspicious(&mut list, 0, &Some("HuTao".to_string()), &reading, &m);
    let t = &list[0].talent;
    assert_eq!((t.auto, t.skill, t.burst), (9, 1, 9));
    assert_eq!((list[0].level, list[0].ascension), (80, 6));
}

#[test]
fn talents_that_were_not_read_again_stay() {
    let m = mappings();
    let mut list = vec![character("Furina", 90, (9, 12, 11))];
    let reading = SecondReading { level: None, constellation: Some(5), talents: None };
    rescan_suspicious(&mut list, 0, &Some("Furina".to_string()), &reading, &m);
    let t = &list[0].talent;
    assert_eq!((t.auto, t.skill, t.burst), (9, 12, 11));
    assert_eq!(list[0].level, 90);
}

#[test]
fn a_second_pass_reads_its_characters() {
    let m = mappings();
    let mut list = vec![
        character("HuTao", 90, (9, 9, 9)),
        character("Nahida", 9, (1, 1, 9)),
        character("Furina", 7, (9, 9, 9)),
    ];
    let mut pass = SecondPass::new(vec![1, 2, 0]);
    let opened = PassEvent::Looked("草/纳西妲".to_string());
    assert_eq!(pass.step(&mut list, opened, &m), PassAction::GoTo { reopen: false, steps: 1 });
    let name = PassEvent::Name(Some("Nahida".to_string()));
    assert_eq!(pass.step(&mut list, name, &m), PassAction::Read);
    let reading =
        SecondReading { level: Some((90, false)), constellation: None, talents: Some((1, 8, 9)) };
    assert_eq!(
        pass.step(&mut list, PassEvent::Read(reading), &m),
        PassAction::GoTo { reopen: false, steps: 1 }
    );
    assert_eq!((list[1].level, list[1].talent.skill), (90, 8));
    // another name was read: the character is passed over
    let wrong = PassEvent::Name(Some("HuTao".to_string()));
    assert_eq!(pass.step(&mut list, wrong, &m), PassAction::GoTo { reopen: true, steps: 0 });
    assert_eq!(list[2].level, 7);
    assert_eq!(pass.step(&mut list, PassEvent::Name(None), &m), PassAction::Close);
    assert_eq!(list[0].level, 90);
}

#[test]
fn a_second_pass_without_its_screen_changes_nothing() {
    let m = mappings();
    let mut list = vec![character("Nahida", 9, (1, 1, 9))];
    let mut pass = SecondPass::new(vec![0]);
    let blank = || PassEvent::Looked(" ".to_string());
    assert_eq!(pass.step(&mut list, blank(), &m), PassAction::OpenAgain);
    assert_eq!(pass.step(&mut list, blank(), &m), PassAction::OpenAgain);
    assert_eq!(pass.step(&mut list, blank(), &m), PassAction::GiveUp);
    assert_eq!((list[0].level, list[0].talent.skill), (9, 1));
}

#[test]
fn a_second_pass_can_be_stopped() {
    let m = mappings();
    let mut list = vec![character("Nahida", 9, (1, 1, 9))];
    let mut pass = SecondPass::new(vec![0]);
    let opened = PassEvent::Looked("草/纳西妲".to_string());
    assert_eq!(pass.step(&mut list, opened, &m), PassAction::GoTo { reopen: false, steps: 0 });
    assert_eq!(pass.step(&mut list, PassEvent::Stopped, &m), PassAction::Close);
    assert_eq!(list[0].level, 9);
}

#[test]
fn the_first_character_comes_once() {
    let mut scan = scanner().scan();
    for key in ["A", "B"] {
        assert!(matches!(
            scan.after(CharacterEvent::Scanned(character(key, 90, (1, 9, 9)), meta(false, 9, 9))),
            Next::Continue
        ));
    }
    assert!(matches!(
        scan.after(CharacterEvent::Scanned(character("A", 90, (1, 9, 9)), meta(false, 9, 9))),
        Next::Complete
    ));
    assert_eq!(scan.characters.len(), 2);
}

#[test]
fn impossible_levels_are_brought_down() {
    let mut list = vec![
        character("A", 93, (1, 1, 1)),
        character("B", 97, (1, 1, 1)),
        character("C", 85, (1, 1, 1)),
    ];
    sanitize_levels(&mut list);
    assert_eq!((list[0].level, list[1].level, list[2].level), (90, 95, 85));
}

fn scanner() -> GoodCharacterScanner {
    GoodCharacterScanner::new(GoodCharacterScannerConfig::default(), Vec::new(), Vec::new())
}

#[test]
fn a_round_ends_at_the_first_character() {
    let mut scan = scanner().scan();
    assert!(matches!(
        scan.after(CharacterEvent::Scanned(character("A", 90, (1, 9, 9)), meta(false, 9, 9))),
        Next::Continue
    ));
    assert!(matches!(
        scan.after(CharacterEvent::Scanned(character("B", 90, (1, 9, 9)), meta(false, 9, 9))),
        Next::Continue
    ));
    assert_eq!(scan.first_name, Some("A".to_string()));
    assert!(matches!(scan.after(CharacterEvent::Repeat), Next::Complete));
    assert_eq!(scan.characters.len(), 2);
}

#[test]
fn failures_end_a_round() {
    let mut scan = scanner().scan();
    assert!(matches!(scan.after(CharacterEvent::Failed), Next::Failed));
    let mut config = GoodCharacterScannerConfig::default();
    config.max_count = 1;
    let mut capped = GoodCharacterScanner::new(config, Vec::new(), Vec::new()).scan();
    assert!(matches!(
        capped.after(CharacterEvent::Scanned(character("A", 90, (1, 9, 9)), meta(false, 9, 9))),
        Next::Enough
    ));
}

#[test]
fn the_screen_is_opened_three_times() {
    assert!(matches!(after_opening(0, "冰/神里绫华"), ScreenStep::Opened));
    assert!(matches!(after_opening(0, ""), ScreenStep::Retry));
    assert!(matches!(after_opening(2, ""), ScreenStep::GiveUp));
    assert!(skip_delay(300) > 0);
}

#[test]
fn the_fields_of_a_character_are_shown() {
    let reading = CharacterReading {
        raw_name: "水/芙宁娜".to_string(),
        key: "Furina".to_string(),
        element: Some("水".to_string()),
        level: 90,
        ascended: false,
        constellation: 2,
        talents: GoodTalent { auto: 1, skill: 9, burst: 10 },
    };
    let (fields, c) =
        GoodCharacterScanner::debug_scan_current(&reading, (1, 2, 3, 4), (5, 6, 7, 8));
    assert_eq!(c.key, "Furina");
    assert_eq!((c.level, c.ascension), (90, 6));
    assert!(fields.iter().any(|f| f.raw_text == "水/芙宁娜" && f.region == (1, 2, 3, 4)));
}
