//! Scanning weapons, and the two ways to scan a card.
use good_scanner::good_artifact_scanner::rows::{artifact_fingerprint, drop_low_value, RowScan};
use good_scanner::good_artifact_scanner::scanner::{
    find_set_key_in_text, parse_substats, ArtifactCard, ArtifactOcrRegions as PlainRegions,
    ArtifactScanResult as PlainResult,
};
use good_scanner::good_common::debug_dump::DumpCtx;
use good_scanner::good_common::models::{GoodArtifact, GoodSubStat};
use good_scanner::good_weapon_scanner::config::GoodWeaponScannerConfig as PlainConfig;
use good_scanner::good_weapon_scanner::scanner::{
    parse_weapon_level as parse_plain_level, GoodWeaponScanner as PlainScanner, WeaponCard,
    WeaponOcrRegions as PlainWeaponRegions,
};
use good_scanner::scanner::artifact::debug::show_value;
use good_scanner::scanner::artifact::scanner::{ArtifactError, GoodArtifactScanner};
use good_scanner::scanner::artifact::config::GoodArtifactScannerConfig;
use good_scanner::scanner::common::backpack_scanner::ScanAction;
use good_scanner::scanner::common::pixel_utils::Region;
use good_scanner::scanner::common::scan_worker::Outcome;
use good_scanner::scanner::common::test_utils::{
    make_1080p_image, make_1080p_scaler, make_test_mappings, paint_artifact_astral,
    paint_artifact_lock, paint_elixir_banner, paint_rarity_stars, paint_weapon_lock, set_pixel,
    FakeOcr,
};
use good_scanner::scanner::weapon::config::GoodWeaponScannerConfig;
use good_scanner::scanner::weapon::scanner::{
    is_stop_name, parse_refinement, parse_weapon_level, snap_max_level, GoodWeaponScanner,
    WeaponError, WeaponScanResult,
};

fn scanner(go_on: bool) -> GoodWeaponScanner {
    let mut config = GoodWeaponScannerConfig::default();
    config.continue_on_failure = go_on;
    GoodWeaponScanner::new(config, vec!["佣兵重剑".to_string()])
}

#[test]
fn weapon_levels_are_read_with_their_caps() {
    assert_eq!(parse_weapon_level("Lv.80/90"), (80, true));
    assert_eq!(parse_weapon_level("90/90"), (90, false));
    assert_eq!(parse_weapon_level(""), (1, false));
    assert_eq!(snap_max_level(88), 90);
    assert_eq!(parse_plain_level("80/90"), (80, true));
    assert_eq!(parse_plain_level("80/86"), (80, true));
    assert_eq!(parse_plain_level("Lv. 45"), (45, false));
    assert_eq!(parse_plain_level("?"), (1, false));
    assert_eq!(parse_refinement("精炼5阶"), 5);
    assert_eq!(parse_refinement("R3"), 3);
    assert_eq!(parse_refinement(""), 1);
    assert!(is_stop_name("佣兵重剑", &vec!["佣兵重剑".to_string()]));
    assert!(!is_stop_name("风鹰剑", &vec!["佣兵重剑".to_string()]));
}

#[test]
fn a_weapon_is_read_from_four_texts() {
    let mut image = make_1080p_image();
    paint_rarity_stars(&mut image, 5);
    paint_weapon_lock(&mut image, true);
    let mut ocr = FakeOcr::new(vec!["护摩之杖", "Lv.90/90", "精炼1阶", "胡桃已装备"]);
    let result = scanner(false).scan_single_weapon(
        &mut ocr,
        &image,
        &make_1080p_scaler(),
        &make_test_mappings(),
    );
    match result {
        Ok(WeaponScanResult::Weapon(w)) => {
            assert_eq!(w.key, "StaffOfHoma");
            assert_eq!((w.level, w.ascension, w.refinement, w.rarity), (90, 6, 1, 5));
            assert_eq!(w.location, "HuTao");
            assert!(w.lock);
        }
        _ => panic!("no weapon"),
    }
    assert_eq!(ocr.call_count(), 4);
}

#[test]
fn unknown_weapons_stop_are_left_out_or_fail() {
    let mut image = make_1080p_image();
    paint_rarity_stars(&mut image, 5);
    let scaler = make_1080p_scaler();
    let m = make_test_mappings();
    let mut ocr = FakeOcr::new(vec!["乱码", "佣兵重剑", "乱码"]);
    assert!(matches!(
        scanner(true).scan_single_weapon(&mut ocr, &image, &scaler, &m),
        Ok(WeaponScanResult::Skip)
    ));
    assert!(matches!(
        scanner(true).scan_single_weapon(&mut ocr, &image, &scaler, &m),
        Ok(WeaponScanResult::Stop)
    ));
    assert!(matches!(
        scanner(false).scan_single_weapon(&mut ocr, &image, &scaler, &m),
        Err(WeaponError::Name(t)) if t == "乱码"
    ));
    let mut broken = FakeOcr::with_results(vec![Err("broken".to_string())]);
    assert!(matches!(
        scanner(true).scan_single_weapon(&mut broken, &image, &scaler, &m),
        Err(WeaponError::Ocr(e)) if e == "broken"
    ));
}

#[test]
fn weapons_below_the_lowest_rarity_are_skipped() {
    let s = scanner(true);
    let weapon = |rarity: i32| good_scanner::good_common::models::GoodWeapon {
        key: "A".to_string(),
        level: 1,
        ascension: 0,
        refinement: 1,
        rarity,
        location: String::new(),
        lock: false,
    };
    let low = s.config.min_rarity - 1;
    assert!(matches!(s.outcome(Ok(WeaponScanResult::Weapon(weapon(5)))), Outcome::Item(_)));
    assert!(matches!(s.outcome(Ok(WeaponScanResult::Weapon(weapon(low)))), Outcome::Skipped));
    assert!(matches!(s.outcome(Err(WeaponError::Ocr(String::new()))), Outcome::Failed));
}

#[test]
fn the_fields_of_a_weapon_are_shown() {
    let mut image = make_1080p_image();
    paint_rarity_stars(&mut image, 4);
    let mut ocr = FakeOcr::new(vec!["风鹰剑", "Lv.80/90", "精炼2阶", ""]);
    let out = scanner(false).debug_scan_single(
        &mut ocr,
        &image,
        &make_1080p_scaler(),
        &make_test_mappings(),
    );
    assert_eq!(out.weapon.key, "AquilaFavonia");
    assert!(out.fields.iter().any(|f| f.raw_text == "风鹰剑" && f.parsed_value.contains("AquilaFavonia")));
}

#[test]
fn the_fields_of_an_artifact_are_shown() {
    let mut image = make_1080p_image();
    paint_rarity_stars(&mut image, 5);
    paint_elixir_banner(&mut image, false);
    let mut level = FakeOcr::new(vec!["+20"]);
    let mut general = FakeOcr::new(vec![
        "生之花", "生命值", "暴击率+10.5%", "暴击伤害+21.0%", "攻击力+9.3%", "元素充能效率+6.5%",
        "角斗士的终幕礼", "芙宁娜已装备",
    ]);
    let out = GoodArtifactScanner::new(GoodArtifactScannerConfig::default()).debug_scan_single(
        &mut level,
        &mut general,
        &image,
        &make_1080p_scaler(),
        &make_test_mappings(),
    );
    assert_eq!(out.artifact.slot_key, "flower");
    assert_eq!(out.artifact.level, 20);
    assert_eq!(out.artifact.substats.len(), 4);
    assert_eq!(out.artifact.set_key, "GladiatorsFinale");
    assert_eq!(out.artifact.location, "Furina");
    assert!(out.fields.iter().any(|f| f.raw_text == "生之花" && f.parsed_value == "flower"));
}

fn plain_config(go_on: bool) -> PlainConfig {
    PlainConfig {
        min_rarity: 4,
        verbose: false,
        ocr_backend: "ppocrv5".to_string(),
        delay_grid_item: 60,
        delay_scroll: 200,
        delay_tab: 400,
        open_delay: 1200,
        continue_on_failure: go_on,
        log_progress: false,
        dump_images: false,
    }
}

#[test]
fn weapons_are_kept_from_the_lowest_rarity_on() {
    let mut image = make_1080p_image();
    paint_rarity_stars(&mut image, 5);
    let scaler = make_1080p_scaler();
    let regions = PlainWeaponRegions::new();
    let m = make_test_mappings();
    let stop = vec!["佣兵重剑".to_string()];
    let card = WeaponCard {
        image: &image,
        scaler: &scaler,
        regions: &regions,
        mappings: &m,
        stop_names: &stop,
        go_on: false,
    };
    let mut ocr = FakeOcr::new(vec!["天空之翼", "80/90", "精炼4阶", "", "乱码", "佣兵重剑"]);
    let mut s = PlainScanner::new(plain_config(false), stop.clone());
    let first = card.scan_single_weapon(&mut ocr);
    assert!(matches!(s.scan(first), ScanAction::Continue));
    assert_eq!(s.weapons.len(), 1);
    assert_eq!(s.weapons[0].key, "SkywardHarp");
    assert_eq!((s.weapons[0].level, s.weapons[0].ascension, s.weapons[0].refinement), (80, 6, 4));
    let second = card.scan_single_weapon(&mut ocr);
    assert!(matches!(&second, Err(WeaponError::Name(t)) if t == "乱码"));
    assert!(matches!(s.scan(second), ScanAction::Stop));
    let third = card.scan_single_weapon(&mut ocr);
    assert!(matches!(third, Ok(WeaponScanResult::Stop)));
    assert!(matches!(s.scan(third), ScanAction::Stop));
    let mut patient = PlainScanner::new(plain_config(true), stop.clone());
    assert!(matches!(patient.scan(Err(WeaponError::Ocr(String::new()))), ScanAction::Continue));
}

#[test]
fn an_artifact_is_read_from_seven_texts() {
    let mut image = make_1080p_image();
    paint_rarity_stars(&mut image, 5);
    paint_artifact_lock(&mut image, true, 40);
    paint_artifact_astral(&mut image, false, 40);
    set_pixel(&mut image, 1485, 372, (200, 180, 50));
    let scaler = make_1080p_scaler();
    let regions = PlainRegions::new();
    let m = make_test_mappings();
    let card = ArtifactCard {
        image: &image,
        scaler: &scaler,
        regions: &regions,
        mappings: &m,
        go_on: false,
    };
    let mut ocr = FakeOcr::new(vec![
        "空之杯",
        "岩元素伤害加成",
        "祝圣之霜定义",
        "+16",
        "暴击率+10.5%\n攻击力+19\n防御力+5.8%（待激活）\n2件套：攻击力+18%",
        "角斗士的终幕礼",
        "芙宁娜已装备",
    ]);
    match card.scan_single_artifact(&mut ocr) {
        Ok(PlainResult::Artifact(a)) => {
            assert_eq!(a.slot_key, "goblet");
            assert_eq!(a.main_stat_key, "geo_dmg_");
            assert!(a.elixir_crafted);
            assert_eq!((a.level, a.rarity), (16, 5));
            assert_eq!(a.substats.len(), 2);
            assert_eq!(a.unactivated_substats.len(), 1);
            assert_eq!(a.set_key, "GladiatorsFinale");
            assert_eq!(a.location, "Furina");
            assert!(a.lock);
            assert!(!a.astral_mark);
        }
        _ => panic!("no artifact"),
    }
    assert_eq!(ocr.call_count(), 7);
    let mut nonsense = FakeOcr::new(vec!["乱码"]);
    assert!(matches!(
        card.scan_single_artifact(&mut nonsense),
        Err(ArtifactError::Slot(t)) if t == "乱码"
    ));
    let mut low = make_1080p_image();
    paint_rarity_stars(&mut low, 3);
    let low_card = ArtifactCard { image: &low, ..card };
    let mut silent = FakeOcr::new(vec![]);
    assert!(matches!(low_card.scan_single_artifact(&mut silent), Ok(PlainResult::Stop)));
    assert_eq!(silent.call_count(), 0);
}

#[test]
fn sets_and_substats_are_found_in_lines() {
    let m = make_test_mappings();
    assert_eq!(
        find_set_key_in_text("??\n绝缘之旗印", &m.artifact_set_map),
        Some("EmblemOfSeveredFate".to_string())
    );
    assert_eq!(find_set_key_in_text("", &m.artifact_set_map), None);
    let subs = parse_substats("生命值+299\nx\n元素精通+23\n2件套", false);
    assert_eq!(subs.len(), 2);
    assert_eq!(subs[1].key, "eleMas");
}

fn artifact(set: &str, level: i32, rarity: i32) -> GoodArtifact {
    GoodArtifact {
        set_key: set.to_string(),
        slot_key: "flower".to_string(),
        level,
        rarity,
        main_stat_key: "hp".to_string(),
        substats: vec![
            GoodSubStat { key: "critRate_".to_string(), value: 10_500_000 },
            GoodSubStat { key: "atk".to_string(), value: 19_000_000 },
        ],
        location: String::new(),
        lock: false,
        astral_mark: false,
        elixir_crafted: false,
        unactivated_substats: Vec::new(),
    }
}

fn scanned(level: i32) -> Result<PlainResult, ArtifactError> {
    Ok(PlainResult::Artifact(artifact("GladiatorsFinale", level, 5)))
}

#[test]
fn artifacts_have_fingerprints() {
    assert_eq!(
        artifact_fingerprint(&artifact("GladiatorsFinale", 20, 5)),
        "GladiatorsFinale|flower|20|hp|5|critRate_:10.5;atk:19"
    );
    assert_eq!(show_value(4_100_000), "4.1");
    assert_eq!(show_value(-500_000), "-0.5");
    assert_eq!(show_value(46_600_001), "46.600001");
}

#[test]
fn a_row_that_was_seen_before_is_dropped() {
    let m = make_test_mappings();
    let mut rows = RowScan::new();
    for round in 0..2 {
        for i in 0..8 {
            assert_eq!(rows.item(scanned(i), 4, false), ScanAction::Continue, "{}", round);
        }
    }
    for i in 0..3 {
        rows.item(scanned(i + 10), 4, false);
    }
    let kept = rows.finish(&m.artifact_set_max_rarity);
    assert_eq!(kept.len(), 11);
    assert_eq!(kept[10].level, 12);
}

#[test]
fn the_same_row_counts_again_on_the_next_page() {
    let m = make_test_mappings();
    let mut rows = RowScan::new();
    for _ in 0..2 {
        for i in 0..8 {
            rows.item(scanned(i), 4, false);
        }
        rows.page_scrolled();
    }
    assert_eq!(rows.finish(&m.artifact_set_max_rarity).len(), 16);
}

#[test]
fn ten_failures_stop_a_scan() {
    let mut rows = RowScan::new();
    let fail = || Err(ArtifactError::Ocr("broken".to_string()));
    // the first row of failures is new and resets the count, the second is not
    for i in 0..17 {
        assert_eq!(rows.item(fail(), 4, true), ScanAction::Continue, "{}", i);
    }
    assert_eq!(rows.item(fail(), 4, true), ScanAction::Stop);
    let mut strict = RowScan::new();
    assert_eq!(strict.item(fail(), 4, false), ScanAction::Stop);
    let mut other = RowScan::new();
    assert_eq!(other.item(Ok(PlainResult::Stop), 4, true), ScanAction::Stop);
    assert_eq!(other.item(Ok(PlainResult::Skip), 4, true), ScanAction::Continue);
}

#[test]
fn unlevelled_four_stars_of_great_sets_are_dropped() {
    let m = make_test_mappings();
    let list = vec![
        artifact("GladiatorsFinale", 0, 4),
        artifact("GladiatorsFinale", 4, 4),
        artifact("GladiatorsFinale", 0, 5),
        artifact("Berserker", 0, 4),
    ];
    let kept = drop_low_value(list, &m.artifact_set_max_rarity);
    assert_eq!(kept.len(), 3);
    assert_eq!(kept[0].level, 4);
}

#[test]
fn pictures_are_dumped_by_item() {
    let ctx = DumpCtx::new("debug_images", "artifacts", 42, "flower");
    assert_eq!(ctx.dir, vec!["debug_images", "artifacts", "0042"]);
    let image = make_1080p_image();
    let scaler = make_1080p_scaler();
    let full = ctx.dump_full(&image);
    assert_eq!(full.file, "full.png");
    assert_eq!(full.region, Region { x: 0, y: 0, w: 1920, h: 1080 });
    let part = ctx.dump_region("level", &image, (10, 20, 30, 40), &scaler).unwrap();
    assert_eq!(part.file, "level.png");
    assert_eq!(part.region, Region { x: 10, y: 20, w: 30, h: 40 });
    let moved = ctx.dump_region_shifted("level", &image, (10, 20, 30, 40), 5, &scaler).unwrap();
    assert_eq!(moved.region.y, 25);
    assert!(ctx.dump_region("none", &image, (10, 20, 0, 40), &scaler).is_none());
    let dot = ctx.dump_pixel("lock", &image, (2, 1079), 3, &scaler).unwrap();
    assert_eq!(dot.region, Region { x: 0, y: 1076, w: 7, h: 4 });
    assert!(ctx.dump_pixel("lock", &image, (5000, 10), 3, &scaler).is_none());
}
