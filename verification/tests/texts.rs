//! Numbers, names and rules for recognised texts.
use good_scanner::good_common::ocr_model::{dictionary, get_image_to_text, OcrModel};
use good_scanner::image::RgbImage;
use good_scanner::name_map::NameMap;
use good_scanner::number::{
    decimal_chars, decimal_int_chars, padded_chars, parse_decimal, parse_i32, parse_u32,
};
use good_scanner::scanner::common::coord_scaler::CoordScaler;
use good_scanner::scanner::common::equip_parser::parse_equip_location;
use good_scanner::scanner::common::game_controller::{
    calc_pool, click_point, color_distance, is_likely_main_world, return_to_main_ui, PanelWatch,
    ReturnStep,
};
use good_scanner::scanner::common::level_text::{
    keep_digits, snap_to_cap, try_split_digits, try_split_noisy,
};
use good_scanner::scanner::common::mappings::{
    fetch_verdict, needs_fetch, ArtifactSetEntry, CharacterEntry, FetchVerdict, MappingManager,
    MappingsFile, NameOverrides, WeaponEntry,
};
use good_scanner::scanner::common::ocr_pool::OcrPoolConfig;
use good_scanner::scanner::common::test_utils::{make_1080p_image, make_test_mappings, set_pixel};
use good_scanner::text::{find_chars, has_text, replace_text, trim_text};

fn chars(s: &str) -> Vec<char> {
    s.chars().collect()
}

fn text(c: Vec<char>) -> String {
    c.into_iter().collect()
}

#[test]
fn numbers_are_parsed_like_the_standard_library_does() {
    for s in ["0", "7", "+7", "-7", "2147483647", "2147483648", "-2147483648", "", "+", "-", "1a"] {
        assert_eq!(parse_i32(&chars(s)), s.parse::<i32>().ok(), "{}", s);
    }
    for s in ["0", "+7", "-7", "4294967295", "4294967296", "00012", " 1", ""] {
        assert_eq!(parse_u32(&chars(s)), s.parse::<u32>().ok(), "{}", s);
    }
    assert_eq!(parse_decimal(&chars("46.6")), Some(46_600_000));
    assert_eq!(parse_decimal(&chars("209")), Some(209_000_000));
    assert_eq!(parse_decimal(&chars("1.2.3")), None);
}

#[test]
fn numbers_are_written_and_read_back() {
    for n in [0u64, 9, 10, 4_294_967_295] {
        assert_eq!(text(decimal_chars(n)), n.to_string());
        assert_eq!(parse_u32(&decimal_chars(n)), Some(n as u32));
    }
    assert_eq!(text(decimal_int_chars(-12)), "-12");
    assert_eq!(text(padded_chars(7, 3)), "007");
    assert_eq!(text(padded_chars(1234, 3)), "1234");
}

#[test]
fn texts_are_searched_and_trimmed() {
    assert_eq!(find_chars(&chars("abcabc"), &chars("ca")), Some(2));
    assert_eq!(find_chars(&chars("abc"), &chars("x")), None);
    assert!(has_text("已装备", "装"));
    assert_eq!(replace_text("a-b-c", "-", "+"), "a+b+c");
    assert_eq!(trim_text("\u{3000} x y\t\n"), "x y");
}

#[test]
fn levels_are_split_from_run_together_digits() {
    assert_eq!(text(keep_digits("Lv.90/90")), "9090");
    assert_eq!(try_split_digits(&chars("9090"), 100), Some((90, 90)));
    assert_eq!(try_split_digits(&chars("99"), 100), None);
    assert_eq!(try_split_noisy(&chars("70180"), 100), Some((70, 80)));
    assert_eq!(snap_to_cap(&[20, 40, 50], 47), 50);
    assert_eq!(snap_to_cap(&[20, 40, 50], 30), 20);
}

#[test]
fn wearers_are_read_around_the_word_for_equipped() {
    let m = make_test_mappings();
    assert_eq!(parse_equip_location("芙宁娜已装备", &m.character_name_map), "Furina");
    assert_eq!(parse_equip_location("已装备: 胡桃", &m.character_name_map), "HuTao");
    assert_eq!(parse_equip_location("芙宁娜", &m.character_name_map), "");
    assert_eq!(parse_equip_location("", &m.character_name_map), "");
}

#[test]
fn names_are_kept_once() {
    let mut map: NameMap<i32> = NameMap::new();
    map.insert("a".to_string(), 1);
    map.insert("b".to_string(), 2);
    map.insert("a".to_string(), 3);
    assert_eq!(map.len(), 2);
    assert_eq!(map.get("a"), Some(&3));
    assert_eq!(map.get("c"), None);
    assert_eq!(map.name_at(1), "b");
    assert_eq!(*map.value_at(1), 2);
}

fn entry(id: &str, zh: Option<&str>) -> CharacterEntry {
    CharacterEntry {
        id: id.to_string(),
        zh: zh.map(|s| s.to_string()),
        c3: Some("E".to_string()),
        c5: None,
    }
}

#[test]
fn mappings_take_names_and_overrides() {
    let data = MappingsFile {
        characters: vec![entry("Furina", Some("芙宁娜")), entry("Nobody", None)],
        weapons: vec![WeaponEntry { id: "SkywardHarp".to_string(), zh: Some("天空之翼".to_string()) }],
        artifact_sets: vec![ArtifactSetEntry {
            id: "Berserker".to_string(),
            zh: Some("战狂".to_string()),
            rarity: Some(4),
        }],
    };
    let mut overrides = NameOverrides::default();
    overrides.traveler_name = Some("小明".to_string());
    let m = MappingManager::new(&data, &overrides);
    assert_eq!(m.character_name_map.get("芙宁娜"), Some(&"Furina".to_string()));
    assert_eq!(m.character_name_map.get("小明"), Some(&"Traveler".to_string()));
    assert_eq!(m.weapon_name_map.get("天空之翼"), Some(&"SkywardHarp".to_string()));
    assert_eq!(m.artifact_set_map.get("战狂"), Some(&"Berserker".to_string()));
    assert_eq!(m.artifact_set_max_rarity.get("Berserker"), Some(&4));
    assert_eq!(m.character_const_bonus.get("Furina").unwrap().c3, Some("E".to_string()));
}

#[test]
fn mappings_are_fetched_once_a_day() {
    assert!(needs_fetch(false, 100, 100));
    assert!(!needs_fetch(true, 100, 100));
    assert!(!needs_fetch(true, 86_499, 100));
    assert!(needs_fetch(true, 86_500, 100));
    assert!(matches!(fetch_verdict(true, false), FetchVerdict::Store));
    assert!(matches!(fetch_verdict(false, true), FetchVerdict::UseCache));
    assert!(matches!(fetch_verdict(false, false), FetchVerdict::Fail));
}

#[test]
fn pools_grow_with_memory() {
    let little = OcrPoolConfig::detect(Some(1));
    let much = OcrPoolConfig::detect(Some(64 * 1_073_741_824));
    assert!(little.v4_count <= much.v4_count);
    assert!(little.v5_count >= 1 && little.v4_count >= 1);
    let unknown = OcrPoolConfig::detect(None);
    assert!(unknown.v5_count >= 1 && unknown.v4_count >= 1);
}

#[test]
fn colours_have_distances() {
    assert_eq!(color_distance((0, 0, 0), (3, 4, 0)), 25);
    assert_eq!(color_distance((255, 0, 0), (0, 0, 0)), 65025);
    assert_eq!(calc_pool(&[0; 12]), calc_pool(&[0; 12]));
    assert_ne!(calc_pool(&[1; 120]), calc_pool(&[0; 120]));
}

#[test]
fn a_panel_has_loaded_when_it_changed_and_settled() {
    let mut watch = PanelWatch::new();
    let mut last = 5u128;
    let mut loaded = false;
    assert!(!watch.wait_until_panel_loaded(&mut last, 5));
    assert!(!watch.wait_until_panel_loaded(&mut last, 900));
    for _ in 0..10 {
        loaded = loaded || watch.wait_until_panel_loaded(&mut last, 900);
    }
    assert!(loaded);
    assert_eq!(last, 900);
}

#[test]
fn the_way_home_is_tried_so_often() {
    let mut way = return_to_main_ui(2);
    assert!(matches!(way.next_step(true), ReturnStep::Finish { reached: true }));
    let mut way = return_to_main_ui(2);
    let mut steps = 0;
    loop {
        match way.next_step(false) {
            ReturnStep::Finish { reached } => {
                assert!(!reached);
                break;
            }
            _ => steps += 1,
        }
        assert!(steps < 20);
    }
    assert!(steps >= 2);
}

#[test]
fn a_dark_screen_is_not_the_main_world() {
    let image = make_1080p_image();
    let scaler = CoordScaler::new(1920, 1080);
    assert!(!is_likely_main_world(&image, &scaler));
    let p = click_point(10, 20, &scaler, 100, 200);
    assert_eq!((p.x, p.y), (110, 220));
}

#[test]
fn the_newer_model_is_the_default() {
    assert_eq!(get_image_to_text("PaddleV3"), OcrModel::V3);
    assert_eq!(get_image_to_text("ppocrv3"), OcrModel::V3);
    assert_eq!(get_image_to_text("ppocrv5"), OcrModel::V5);
    assert_eq!(get_image_to_text(""), OcrModel::V5);
    assert_eq!(dictionary("a\r\nb \n\nc\n"), vec!["a", "b", "", "c", " "]);
    assert_eq!(dictionary(""), vec![" "]);
}

#[test]
fn pixels_outside_a_picture_are_passed_over() {
    let mut image = RgbImage::new(2, 2);
    set_pixel(&mut image, 5, 5, (1, 1, 1));
    assert_eq!(image.pixel(1, 1), (0, 0, 0));
}
