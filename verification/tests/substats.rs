//! Reading the substats and the set of a card.
use good_scanner::scanner::artifact::regions::ArtifactOcrRegions;
use good_scanner::scanner::artifact::set_reader::{read_set, try_set_ocr};
use good_scanner::scanner::artifact::substat_reader::{
    piece_together, read_cropped, read_line, read_lines, read_substats, recover_line,
    recover_lines, try_engine,
};
use good_scanner::scanner::common::ocr::{ImageToText, OcrRequest, Treatment};
use good_scanner::scanner::common::pixel_utils::Region;
use good_scanner::scanner::common::roll_solver::{OcrCandidate, TENTH};
use good_scanner::scanner::common::test_utils::{
    make_1080p_image, make_1080p_scaler, make_test_mappings, FakeOcr,
};

fn reading(key: &str, tenths: i64) -> OcrCandidate {
    OcrCandidate { key: key.to_string(), value: tenths * TENTH, inactive: false }
}

fn shown(c: &OcrCandidate) -> (String, i64) {
    (c.key.clone(), c.value / TENTH)
}

const LINE: (i32, i32, i32, i32) = (1356, 478, 255, 35);

#[test]
fn calls_without_a_prepared_answer_are_counted() {
    let mut ocr = FakeOcr::new(vec!["a"]);
    let request = OcrRequest {
        region: Region { x: 0, y: 0, w: 1, h: 1 },
        treatment: Treatment::Plain,
    };
    assert_eq!(ocr.read(&request), Ok("a".to_string()));
    assert!(ocr.read(&request).is_err());
    assert!(ocr.read(&request).is_err());
    assert_eq!(ocr.call_count(), 3);
}

#[test]
fn a_line_is_read_without_its_icon_where_it_gives_no_stat() {
    let (image, scaler) = (make_1080p_image(), make_1080p_scaler());
    let mut ocr = FakeOcr::new(vec!["暴击率+10.5%"]);
    assert_eq!(read_line(&mut ocr, &image, &scaler, LINE), "暴击率+10.5%");
    assert_eq!(ocr.call_count(), 1);
    let mut ocr = FakeOcr::new(vec!["乱", "攻击力+19"]);
    assert_eq!(read_line(&mut ocr, &image, &scaler, LINE), "攻击力+19");
    assert_eq!(ocr.call_count(), 2);
    let mut ocr = FakeOcr::new(vec!["乱码", "乱"]);
    assert_eq!(read_line(&mut ocr, &image, &scaler, LINE), "乱码");
}

#[test]
fn a_stat_is_pieced_together_from_its_name_and_a_number() {
    let (image, scaler) = (make_1080p_image(), make_1080p_scaler());
    let mut ocr = FakeOcr::new(vec!["19"]);
    let found = piece_together(&mut ocr, &image, &scaler, LINE, "攻击力");
    assert_eq!(found.map(|c| shown(&c)), Some(("atk".to_string(), 190)));
    let mut ocr = FakeOcr::new(vec!["0.4"]);
    assert!(piece_together(&mut ocr, &image, &scaler, LINE, "攻击力").is_none());
    assert_eq!(ocr.call_count(), 1);
    let mut ocr = FakeOcr::new(vec!["19"]);
    assert!(piece_together(&mut ocr, &image, &scaler, LINE, "乱码").is_none());
    assert_eq!(ocr.call_count(), 0);
}

#[test]
fn lines_are_read_up_to_the_set_effects() {
    let (image, scaler) = (make_1080p_image(), make_1080p_scaler());
    let (regions, mappings) = (ArtifactOcrRegions::new(), make_test_mappings());
    let sets = &mappings.artifact_set_map;
    let mut ocr = FakeOcr::new(vec!["暴击率+10.5%", "攻击力+5.8%", "2件套：攻击", ""]);
    let lines = read_lines(&mut ocr, &image, &scaler, &regions, sets, 0, 4);
    assert_eq!(lines.len(), 2);
    assert_eq!(shown(&lines[0][0]), ("critRate_".to_string(), 105));
    assert_eq!(shown(&lines[1][0]), ("atk_".to_string(), 58));
    assert_eq!(ocr.call_count(), 4);
    let mut ocr = FakeOcr::new(vec!["角斗士的终幕礼", ""]);
    assert!(read_lines(&mut ocr, &image, &scaler, &regions, sets, 0, 4).is_empty());
    assert_eq!(ocr.call_count(), 2);
}

#[test]
fn a_line_is_recovered_by_the_first_variation_that_gives_a_stat() {
    let (image, scaler) = (make_1080p_image(), make_1080p_scaler());
    let mut level = FakeOcr::new(vec!["乱码"]);
    let mut general = FakeOcr::new(vec!["暴击率+10.5%"]);
    let found = recover_line(&mut level, &mut general, &image, &scaler, LINE);
    assert_eq!(found.map(|c| shown(&c)), Some(("critRate_".to_string(), 105)));
    assert_eq!((level.call_count(), general.call_count()), (1, 1));
    let mut level = FakeOcr::new(vec!["乱码", "攻击力+19"]);
    let mut general = FakeOcr::new(vec!["乱码"]);
    let found = recover_line(&mut level, &mut general, &image, &scaler, LINE);
    assert_eq!(found.map(|c| shown(&c)), Some(("atk".to_string(), 190)));
    assert_eq!((level.call_count(), general.call_count()), (2, 1));
    let mut level = FakeOcr::new(vec![]);
    let mut general = FakeOcr::new(vec![]);
    assert!(recover_line(&mut level, &mut general, &image, &scaler, LINE).is_none());
    assert_eq!((level.call_count(), general.call_count()), (9, 9));
    let mut level = FakeOcr::new(vec!["攻击力+19"]);
    let found = try_engine(&mut level, &image, &scaler, LINE);
    assert_eq!(found.map(|c| shown(&c)), Some(("atk".to_string(), 190)));
}

#[test]
fn only_lines_without_a_reading_are_recovered() {
    let (image, scaler) = (make_1080p_image(), make_1080p_scaler());
    let regions = ArtifactOcrRegions::new();
    let lines = vec![vec![reading("hp", 2090)], vec![]];
    let mut level = FakeOcr::new(vec!["攻击力+19", "防御力+23"]);
    let mut general = FakeOcr::new(vec![]);
    let out =
        recover_lines(&mut level, &mut general, &image, &scaler, &regions, 0, 3, lines);
    assert_eq!(out.len(), 4);
    assert_eq!(shown(&out[0][0]), ("hp".to_string(), 2090));
    assert_eq!(shown(&out[1][0]), ("atk".to_string(), 190));
    assert_eq!(shown(&out[2][0]), ("def".to_string(), 230));
    assert!(out[3].is_empty());
    assert_eq!((level.call_count(), general.call_count()), (2, 0));
}

#[test]
fn cropped_lines_add_what_was_not_read_before() {
    let (image, scaler) = (make_1080p_image(), make_1080p_scaler());
    let regions = ArtifactOcrRegions::new();
    let lines = vec![vec![reading("critRate_", 105)], vec![reading("atk", 190)]];
    let mut general = FakeOcr::new(vec!["暴击率+10.5%", "攻击力+16"]);
    let out = read_cropped(&mut general, &image, &scaler, &regions, 0, 10, &lines);
    assert_eq!(out[0].len(), 1);
    assert_eq!(out[1].len(), 2);
    assert_eq!(shown(&out[1][1]), ("atk".to_string(), 160));
    assert_eq!(general.call_count(), 2);
}

#[test]
fn unsolved_substats_are_read_again_with_their_right_cut_off() {
    let (image, scaler) = (make_1080p_image(), make_1080p_scaler());
    let (regions, mappings) = (ArtifactOcrRegions::new(), make_test_mappings());
    let sets = &mappings.artifact_set_map;
    let mut level = FakeOcr::new(vec![]);
    let mut general = FakeOcr::new(vec![
        "暴击率+10.5%",
        "暴击伤害+21.0%",
        "攻击力+9.3%",
        "元素充能效率+99.9%",
        "暴击率+10.5%",
        "暴击伤害+21.0%",
        "攻击力+9.3%",
        "元素充能效率+6.5%",
    ]);
    let out = read_substats(
        &mut level,
        &mut general,
        &image,
        &scaler,
        &regions,
        sets,
        5,
        20,
        &vec![20],
        0,
    );
    assert!(out.total_rolls.is_some());
    assert_eq!(out.active.len(), 4);
    assert_eq!(out.active[3].value, 65 * TENTH);
    assert_eq!((level.call_count(), general.call_count()), (0, 8));
}

#[test]
fn the_set_is_searched_row_by_row() {
    let (image, scaler) = (make_1080p_image(), make_1080p_scaler());
    let mappings = make_test_mappings();
    let sets = &mappings.artifact_set_map;
    let mut ocr = FakeOcr::new(vec!["", "", "角斗士的终幕礼"]);
    let found = try_set_ocr(&mut ocr, &image, &scaler, (1330, 625, 280, 45), sets).unwrap();
    assert_eq!(found.0, Some("GladiatorsFinale".to_string()));
    let mut ocr = FakeOcr::new(vec!["", "", "", "角斗士的终幕礼"]);
    let found = read_set(&mut ocr, &image, &scaler, sets, 0, 4).unwrap();
    assert_eq!(found.0, Some("GladiatorsFinale".to_string()));
    assert_eq!(ocr.call_count(), 4);
    let mut ocr = FakeOcr::new(vec![""; 24]);
    assert_eq!(read_set(&mut ocr, &image, &scaler, sets, 0, 4), Ok((None, String::new())));
    assert_eq!(ocr.call_count(), 24);
    let mut ocr = FakeOcr::new(vec!["", ""]);
    assert!(read_set(&mut ocr, &image, &scaler, sets, 0, 4).is_err());
    assert_eq!(ocr.call_count(), 3);
}
