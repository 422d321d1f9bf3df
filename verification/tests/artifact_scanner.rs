//! Scanning single artifacts from painted screenshots and prepared texts.
use good_scanner::scanner::artifact::config::GoodArtifactScannerConfig;
use good_scanner::scanner::artifact::regions::ArtifactOcrRegions;
use good_scanner::scanner::artifact::scanner::{
    ArtifactError, ArtifactScanResult, GoodArtifactScanner,
};
use good_scanner::scanner::common::models::GoodArtifact;
use good_scanner::scanner::common::test_utils::{
    make_1080p_image, make_1080p_scaler, make_test_mappings, paint_artifact_astral,
    paint_artifact_lock, paint_elixir_banner, paint_rarity_stars, FakeOcr,
};

fn default_config() -> GoodArtifactScannerConfig {
    GoodArtifactScannerConfig {
        verbose: false,
        dump_images: false,
        continue_on_failure: false,
        ..Default::default()
    }
}

fn continuing_config() -> GoodArtifactScannerConfig {
    let mut config = default_config();
    config.continue_on_failure = true;
    config
}

fn substat_lines() -> Vec<&'static str> {
    vec!["暴击率+10.5%", "暴击伤害+21.0%", "攻击力+9.3%", "元素充能效率+6.5%"]
}

fn expect_artifact(result: Result<ArtifactScanResult, ArtifactError>) -> GoodArtifact {
    match result.unwrap() {
        ArtifactScanResult::Artifact(a) => a,
        other => panic!("Expected Artifact, got {:?}", std::mem::discriminant(&other)),
    }
}

#[test]
fn test_artifact_low_rarity_stops() {
    let mut image = make_1080p_image();
    paint_rarity_stars(&mut image, 3);
    let scaler = make_1080p_scaler();
    let regions = ArtifactOcrRegions::new();
    let mappings = make_test_mappings();
    let config = default_config();

    let mut level_ocr = FakeOcr::new(vec![]);
    let mut general_ocr = FakeOcr::new(vec![]);

    let result = GoodArtifactScanner::scan_single_artifact(
        &mut level_ocr, &mut general_ocr, &image, &scaler, &regions, &mappings, &config, None,
    )
    .unwrap();

    assert!(matches!(result, ArtifactScanResult::Stop));
    assert_eq!(level_ocr.call_count(), 0);
    assert_eq!(general_ocr.call_count(), 0);
}

#[test]
fn test_artifact_unrecognizable_slot_4star_skips() {
    let mut image = make_1080p_image();
    paint_rarity_stars(&mut image, 4);
    let scaler = make_1080p_scaler();
    let regions = ArtifactOcrRegions::new();
    let mappings = make_test_mappings();
    let config = default_config();

    let mut level_ocr = FakeOcr::new(vec![]);
    let mut general_ocr = FakeOcr::new(vec!["乱码无法识别"]);

    let result = GoodArtifactScanner::scan_single_artifact(
        &mut level_ocr, &mut general_ocr, &image, &scaler, &regions, &mappings, &config, None,
    )
    .unwrap();

    assert!(matches!(result, ArtifactScanResult::Skip));
}

#[test]
fn test_artifact_unrecognizable_slot_5star_errors() {
    let mut image = make_1080p_image();
    paint_rarity_stars(&mut image, 5);
    let scaler = make_1080p_scaler();
    let regions = ArtifactOcrRegions::new();
    let mappings = make_test_mappings();
    let config = default_config();

    let mut level_ocr = FakeOcr::new(vec![]);
    let mut general_ocr = FakeOcr::new(vec!["乱码无法识别"]);

    let result = GoodArtifactScanner::scan_single_artifact(
        &mut level_ocr, &mut general_ocr, &image, &scaler, &regions, &mappings, &config, None,
    );

    assert!(result.is_err());
}

#[test]
fn test_artifact_unrecognizable_slot_5star_skips_with_continue() {
    let mut image = make_1080p_image();
    paint_rarity_stars(&mut image, 5);
    let scaler = make_1080p_scaler();
    let regions = ArtifactOcrRegions::new();
    let mappings = make_test_mappings();
    let config = continuing_config();

    let mut level_ocr = FakeOcr::new(vec![]);
    let mut general_ocr = FakeOcr::new(vec!["乱码无法识别"]);

    let result = GoodArtifactScanner::scan_single_artifact(
        &mut level_ocr, &mut general_ocr, &image, &scaler, &regions, &mappings, &config, None,
    )
    .unwrap();

    assert!(matches!(result, ArtifactScanResult::Skip));
}

#[test]
fn test_artifact_flower_happy_path() {
    let mut image = make_1080p_image();
    paint_rarity_stars(&mut image, 5);
    paint_artifact_lock(&mut image, true, 0);
    paint_artifact_astral(&mut image, false, 0);
    paint_elixir_banner(&mut image, false);
    let scaler = make_1080p_scaler();
    let regions = ArtifactOcrRegions::new();
    let mappings = make_test_mappings();
    let config = continuing_config();

    // level_ocr: 1 call for level
    let mut level_ocr = FakeOcr::new(vec!["+20"]);

    let mut general_ocr = FakeOcr::new(vec![
        "生之花",            // 1. part name
        "生命值",            // 2. main stat
        "+20",               // 3. level
        "暴击率+10.5%",      // 4. sub0 direct (parses, no masked call)
        "暴击伤害+21.0%",    // 5. sub1 direct
        "攻击力+9.3%",       // 6. sub2 direct
        "元素充能效率+6.5%", // 7. sub3 direct
        "角斗士的终幕礼",    // 8. set name (matches, no grayscale call)
        "",                  // 9. equip (empty)
    ]);

    let result = GoodArtifactScanner::scan_single_artifact(
        &mut level_ocr, &mut general_ocr, &image, &scaler, &regions, &mappings, &config, None,
    );

    let a = expect_artifact(result);
    assert_eq!(a.slot_key, "flower");
    assert_eq!(a.main_stat_key, "hp");
    assert_eq!(a.level, 20);
    assert_eq!(a.rarity, 5);
    assert!(a.lock);
    assert!(!a.astral_mark);
    assert!(!a.elixir_crafted);
    assert_eq!(a.set_key, "GladiatorsFinale");
    assert!(a.location.is_empty());
    assert_eq!(a.substats.len(), 4);
    assert_eq!(a.substats[0].key, "critRate_");
    assert!((a.substats[0].value as f64 / 1_000_000.0 - 10.5).abs() < 0.1);
    assert!(a.total_rolls.is_some());
}

#[test]
fn test_artifact_elixir_crafted_detected() {
    let mut image = make_1080p_image();
    paint_rarity_stars(&mut image, 5);
    paint_elixir_banner(&mut image, true);
    paint_artifact_lock(&mut image, false, 40);
    paint_artifact_astral(&mut image, false, 40);
    let scaler = make_1080p_scaler();
    let regions = ArtifactOcrRegions::new();
    let mappings = make_test_mappings();
    let config = continuing_config();

    let mut level_ocr = FakeOcr::new(vec!["+20"]);
    let mut general_ocr = FakeOcr::new(vec![
        "生之花", "生命值", "+20",
        "暴击率+10.5%", "暴击伤害+21.0%", "攻击力+9.3%", "元素充能效率+6.5%",
        "角斗士的终幕礼", "",
    ]);

    let result = GoodArtifactScanner::scan_single_artifact(
        &mut level_ocr, &mut general_ocr, &image, &scaler, &regions, &mappings, &config, None,
    );

    let a = expect_artifact(result);
    assert!(a.elixir_crafted);
    assert!(!a.lock);
}

#[test]
fn test_artifact_astral_forces_lock_true() {
    let mut image = make_1080p_image();
    paint_rarity_stars(&mut image, 5);
    paint_elixir_banner(&mut image, false);
    paint_artifact_lock(&mut image, false, 0);
    paint_artifact_astral(&mut image, true, 0);
    let scaler = make_1080p_scaler();
    let regions = ArtifactOcrRegions::new();
    let mappings = make_test_mappings();
    let config = continuing_config();

    let mut level_ocr = FakeOcr::new(vec!["+20"]);
    let mut general_ocr = FakeOcr::new(vec![
        "生之花", "生命值", "+20",
        "暴击率+10.5%", "暴击伤害+21.0%", "攻击力+9.3%", "元素充能效率+6.5%",
        "角斗士的终幕礼", "",
    ]);

    let result = GoodArtifactScanner::scan_single_artifact(
        &mut level_ocr, &mut general_ocr, &image, &scaler, &regions, &mappings, &config, None,
    );

    let a = expect_artifact(result);
    assert!(a.astral_mark);
    assert!(a.lock, "Lock should be forced true when astral is present");
}

#[test]
fn test_artifact_equipped_to_character() {
    let mut image = make_1080p_image();
    paint_rarity_stars(&mut image, 5);
    paint_artifact_lock(&mut image, false, 0);
    paint_artifact_astral(&mut image, false, 0);
    paint_elixir_banner(&mut image, false);
    let scaler = make_1080p_scaler();
    let regions = ArtifactOcrRegions::new();
    let mappings = make_test_mappings();
    let config = continuing_config();

    let mut level_ocr = FakeOcr::new(vec!["+20"]);
    let mut general_ocr = FakeOcr::new(vec![
        "空之杯", "岩元素伤害加成", "+20",
        "暴击率+10.5%", "暴击伤害+21.0%", "攻击力+9.3%", "元素充能效率+6.5%",
        "角斗士的终幕礼",
        "芙宁娜已装备",
    ]);

    let result = GoodArtifactScanner::scan_single_artifact(
        &mut level_ocr, &mut general_ocr, &image, &scaler, &regions, &mappings, &config, None,
    );

    let a = expect_artifact(result);
    assert_eq!(a.slot_key, "goblet");
    assert_eq!(a.location, "Furina");
}

#[test]
fn a_text_for_the_slot_that_names_none_is_reported() {
    let mut image = make_1080p_image();
    paint_rarity_stars(&mut image, 5);
    let mut level_ocr = FakeOcr::new(vec![]);
    let mut general_ocr = FakeOcr::new(vec!["乱码无法识别"]);
    let result = GoodArtifactScanner::scan_single_artifact(
        &mut level_ocr,
        &mut general_ocr,
        &image,
        &make_1080p_scaler(),
        &ArtifactOcrRegions::new(),
        &make_test_mappings(),
        &default_config(),
        None,
    );
    assert!(matches!(result, Err(ArtifactError::Slot(t)) if t == "乱码无法识别"));
}

#[test]
fn a_text_for_the_main_stat_that_names_none_is_reported() {
    let mut image = make_1080p_image();
    paint_rarity_stars(&mut image, 5);
    let mut level_ocr = FakeOcr::new(vec![]);
    let mut general_ocr = FakeOcr::new(vec!["理之冠", "乱码"]);
    let result = GoodArtifactScanner::scan_single_artifact(
        &mut level_ocr,
        &mut general_ocr,
        &image,
        &make_1080p_scaler(),
        &ArtifactOcrRegions::new(),
        &make_test_mappings(),
        &default_config(),
        None,
    );
    assert!(matches!(result, Err(ArtifactError::MainStat(t)) if t == "乱码"));
}

#[test]
fn an_error_of_the_engine_is_handed_on() {
    let mut image = make_1080p_image();
    paint_rarity_stars(&mut image, 5);
    let mut level_ocr = FakeOcr::new(vec![]);
    let mut general_ocr = FakeOcr::with_results(vec![Err("broken".to_string())]);
    let result = GoodArtifactScanner::scan_single_artifact(
        &mut level_ocr,
        &mut general_ocr,
        &image,
        &make_1080p_scaler(),
        &ArtifactOcrRegions::new(),
        &make_test_mappings(),
        &continuing_config(),
        None,
    );
    assert!(matches!(result, Err(ArtifactError::Ocr(e)) if e == "broken"));
}

#[test]
fn a_set_that_no_row_names_is_reported() {
    let mut image = make_1080p_image();
    paint_rarity_stars(&mut image, 5);
    paint_elixir_banner(&mut image, false);
    let mut level_ocr = FakeOcr::new(vec!["+20"]);
    let mut texts = vec!["生之花", "生命值", "+20"];
    texts.extend(substat_lines());
    // every further row is asked for in three ways and answers nonsense
    texts.extend(vec!["??"; 40]);
    let mut general_ocr = FakeOcr::new(texts);
    let result = GoodArtifactScanner::scan_single_artifact(
        &mut level_ocr,
        &mut general_ocr,
        &image,
        &make_1080p_scaler(),
        &ArtifactOcrRegions::new(),
        &make_test_mappings(),
        &default_config(),
        None,
    );
    assert!(matches!(result, Err(ArtifactError::SetName(4, _))));
}

#[test]
fn artifacts_are_identified_whatever_their_rarity() {
    let mut image = make_1080p_image();
    paint_rarity_stars(&mut image, 5);
    paint_artifact_lock(&mut image, true, 0);
    paint_artifact_astral(&mut image, false, 0);
    paint_elixir_banner(&mut image, false);
    let mut texts = vec!["死之羽", "攻击力", "+20"];
    texts.extend(substat_lines());
    texts.extend(vec!["角斗士的终幕礼", ""]);
    let mut level_ocr = FakeOcr::new(vec!["+20"]);
    let mut general_ocr = FakeOcr::new(texts);
    let found = GoodArtifactScanner::identify_artifact(
        &mut level_ocr,
        &mut general_ocr,
        &image,
        &make_1080p_scaler(),
        &make_test_mappings(),
        None,
    );
    let a = found.unwrap().unwrap();
    assert_eq!((a.slot_key.as_str(), a.main_stat_key.as_str()), ("plume", "atk"));
    let mut nothing = FakeOcr::new(vec!["乱码"]);
    let none = GoodArtifactScanner::identify_artifact(
        &mut level_ocr,
        &mut nothing,
        &image,
        &make_1080p_scaler(),
        &make_test_mappings(),
        None,
    );
    assert!(none.unwrap().is_none());
}

#[test]
fn the_level_alone_is_read_with_one_question() {
    let image = make_1080p_image();
    let mut ocr = FakeOcr::new(vec!["+16"]);
    assert_eq!(
        GoodArtifactScanner::scan_level_only(&mut ocr, &image, &make_1080p_scaler()),
        16
    );
    assert_eq!(ocr.call_count(), 1);
    let m = make_test_mappings();
    assert_eq!(
        GoodArtifactScanner::find_set_key_in_text_pub("绝缘之旗印：", &m),
        Some("EmblemOfSeveredFate".to_string())
    );
    assert_eq!(GoodArtifactScanner::find_set_key_in_text_pub("", &m), None);
}
