//! Stars, locks and marks on painted screenshots.
use good_scanner::image::RgbImage;
use good_scanner::scanner::common::pixel_utils::{
    artifact_below_min_rarity, crop_region, detect_artifact_astral_mark, detect_artifact_lock,
    detect_artifact_rarity, detect_weapon_lock, detect_weapon_rarity, get_pixel_brightness,
    is_artifact_icon_ambiguous, is_substat_dimmed, is_weapon_icon_ambiguous, pixel_at_base,
    read_constellation, weapon_below_min_rarity, Region,
};
use good_scanner::scanner::common::test_utils::{
    make_1080p_image, make_1080p_scaler, paint_artifact_astral, paint_artifact_lock,
    paint_rarity_stars, paint_weapon_lock, set_pixel, SizeEngine,
};
use good_scanner::scanner::common::ocr::{
    read_part, ImageToText, OcrRequest, Recorder, Treatment,
};
use good_scanner::scanner::common::treatments::{extract_green, mask_icon, prepare, Screenshot};

#[test]
fn test_artifact_rarity_5_star() {
    let mut image = make_1080p_image();
    paint_rarity_stars(&mut image, 5);
    let scaler = make_1080p_scaler();
    assert_eq!(detect_artifact_rarity(&image, &scaler), 5);
}

#[test]
fn test_artifact_rarity_4_star() {
    let mut image = make_1080p_image();
    paint_rarity_stars(&mut image, 4);
    let scaler = make_1080p_scaler();
    assert_eq!(detect_artifact_rarity(&image, &scaler), 4);
}

#[test]
fn test_artifact_rarity_3_star() {
    let mut image = make_1080p_image();
    paint_rarity_stars(&mut image, 3);
    let scaler = make_1080p_scaler();
    assert_eq!(detect_artifact_rarity(&image, &scaler), 3);
}

#[test]
fn test_artifact_rarity_blank_image() {
    let image = make_1080p_image();
    let scaler = make_1080p_scaler();
    // Blank image has no star pixels; fallback single-pixel checks also fail
    assert_eq!(detect_artifact_rarity(&image, &scaler), 3);
}

#[test]
fn test_weapon_rarity_5_star() {
    let mut image = make_1080p_image();
    paint_rarity_stars(&mut image, 5);
    let scaler = make_1080p_scaler();
    assert_eq!(detect_weapon_rarity(&image, &scaler), 5);
}

#[test]
fn test_artifact_lock_detected() {
    let mut image = make_1080p_image();
    paint_artifact_lock(&mut image, true, 0);
    let scaler = make_1080p_scaler();
    assert!(detect_artifact_lock(&image, &scaler, 0));
}

#[test]
fn test_artifact_unlock_detected() {
    let mut image = make_1080p_image();
    paint_artifact_lock(&mut image, false, 0);
    let scaler = make_1080p_scaler();
    assert!(!detect_artifact_lock(&image, &scaler, 0));
}

#[test]
fn test_artifact_lock_with_elixir_shift() {
    let mut image = make_1080p_image();
    // Paint unlocked at base position so black pixels don't read as "dark"
    paint_artifact_lock(&mut image, false, 0);
    // Paint locked at shifted position
    paint_artifact_lock(&mut image, true, 40);
    let scaler = make_1080p_scaler();
    assert!(!detect_artifact_lock(&image, &scaler, 0));
    assert!(detect_artifact_lock(&image, &scaler, 40));
}

#[test]
fn test_artifact_astral_mark_detected() {
    let mut image = make_1080p_image();
    paint_artifact_astral(&mut image, true, 0);
    let scaler = make_1080p_scaler();
    assert!(detect_artifact_astral_mark(&image, &scaler, 0));
}

#[test]
fn test_artifact_astral_mark_absent() {
    let mut image = make_1080p_image();
    paint_artifact_astral(&mut image, false, 0);
    let scaler = make_1080p_scaler();
    assert!(!detect_artifact_astral_mark(&image, &scaler, 0));
}

#[test]
fn test_weapon_lock_detected() {
    let mut image = make_1080p_image();
    paint_weapon_lock(&mut image, true);
    let scaler = make_1080p_scaler();
    assert!(detect_weapon_lock(&image, &scaler));
}

#[test]
fn test_weapon_unlock_detected() {
    let mut image = make_1080p_image();
    paint_weapon_lock(&mut image, false);
    let scaler = make_1080p_scaler();
    assert!(!detect_weapon_lock(&image, &scaler));
}

#[test]
fn test_icon_ambiguous_mid_animation() {
    let mut image = make_1080p_image();
    let scaler = make_1080p_scaler();
    let mid = (150, 150, 150);
    set_pixel(&mut image, 1683, 428, mid);
    assert!(is_artifact_icon_ambiguous(&image, &scaler));
}

#[test]
fn test_icon_not_ambiguous_when_clearly_locked() {
    let mut image = make_1080p_image();
    let scaler = make_1080p_scaler();
    let dark = (60, 60, 60);
    set_pixel(&mut image, 1683, 428, dark);
    set_pixel(&mut image, 1768, 428, dark);
    assert!(!is_artifact_icon_ambiguous(&image, &scaler));
}

#[test]
fn a_weapon_icon_between_dark_and_bright_is_ambiguous() {
    let mut image = make_1080p_image();
    let scaler = make_1080p_scaler();
    set_pixel(&mut image, 1768, 428, (150, 150, 150));
    assert!(is_weapon_icon_ambiguous(&image, &scaler));
    set_pixel(&mut image, 1768, 428, (60, 60, 60));
    assert!(!is_weapon_icon_ambiguous(&image, &scaler));
}

#[test]
fn pixels_are_read_where_the_base_resolution_has_them() {
    let mut image = make_1080p_image();
    let scaler = make_1080p_scaler();
    set_pixel(&mut image, 7, 9, (10, 20, 33));
    assert_eq!(pixel_at_base(&image, &scaler, 7, 9), Some((10, 20, 33)));
    assert_eq!(pixel_at_base(&image, &scaler, 1920, 9), None);
    assert_eq!(pixel_at_base(&image, &scaler, -1, 9), None);
    assert_eq!(get_pixel_brightness(&image, &scaler, 7, 9), 21);
}

#[test]
fn rarities_below_the_lowest_are_told() {
    let mut image = make_1080p_image();
    let scaler = make_1080p_scaler();
    paint_rarity_stars(&mut image, 4);
    assert!(artifact_below_min_rarity(&image, &scaler, 5));
    assert!(!artifact_below_min_rarity(&image, &scaler, 4));
    assert!(weapon_below_min_rarity(&image, &scaler, 5));
    assert!(!weapon_below_min_rarity(&image, &scaler, 4));
}

#[test]
fn regions_stay_inside_the_picture() {
    let image = make_1080p_image();
    let scaler = make_1080p_scaler();
    assert_eq!(
        crop_region(&image, &scaler, (10, 20, 30, 40)),
        Region { x: 10, y: 20, w: 30, h: 40 }
    );
    assert_eq!(
        crop_region(&image, &scaler, (1900, 1070, 30, 40)),
        Region { x: 1900, y: 1070, w: 20, h: 10 }
    );
    assert_eq!(
        crop_region(&image, &scaler, (3000, 20, 30, 40)),
        Region { x: 1919, y: 20, w: 1, h: 40 }
    );
}

#[test]
fn grey_lines_are_dimmed_and_dark_ones_are_not() {
    let scaler = make_1080p_scaler();
    let rect = (100, 100, 40, 10);
    let mut dark = make_1080p_image();
    let mut grey = make_1080p_image();
    for x in 100..140 {
        for y in 100..110 {
            set_pixel(&mut dark, x, y, (240, 240, 240));
            set_pixel(&mut grey, x, y, (240, 240, 240));
        }
    }
    for x in 110..130 {
        for y in 103..107 {
            set_pixel(&mut dark, x, y, (70, 80, 90));
            set_pixel(&mut grey, x, y, (165, 165, 165));
        }
    }
    assert!(!is_substat_dimmed(&dark, &scaler, rect, 0));
    assert!(is_substat_dimmed(&grey, &scaler, rect, 0));
}

#[test]
fn constellations_are_read_up_to_the_first_dark_node() {
    assert_eq!(read_constellation(&vec![true, true, false, false, false, false]), (2, true));
    assert_eq!(read_constellation(&vec![true; 6]), (6, true));
    assert_eq!(read_constellation(&vec![false; 6]), (0, true));
    let (count, sure) = read_constellation(&vec![true, false, true, false, false, false]);
    assert_eq!(count, 1);
    assert!(!sure);
}

#[test]
fn parts_are_cut_out_of_pictures() {
    let mut image = RgbImage::new(4, 3);
    image.set_pixel(2, 1, (1, 2, 3));
    let part = image.crop(1, 1, 3, 2);
    assert_eq!((part.width(), part.height()), (3, 2));
    assert_eq!(part.pixel(1, 0), (1, 2, 3));
    assert_eq!(part.pixel(0, 0), (0, 0, 0));
    assert_eq!(part.bytes().len(), 18);
    assert_eq!(part.bytes()[3], 1);
    assert!(RgbImage::from_raw(2, 2, vec![0; 11]).is_none());
    let raw = RgbImage::from_raw(1, 2, vec![1, 2, 3, 4, 5, 6]).unwrap();
    assert_eq!(raw.pixel(0, 1), (4, 5, 6));
}

#[test]
fn icons_are_painted_over_in_the_colour_behind_them() {
    let mut image = RgbImage::new(40, 3);
    image.set_pixel(30, 0, (10, 20, 30));
    image.set_pixel(30, 1, (20, 20, 30));
    image.set_pixel(30, 2, (30, 20, 33));
    image.set_pixel(20, 1, (7, 7, 7));
    mask_icon(&mut image);
    assert_eq!(image.pixel(0, 0), (20, 20, 31));
    assert_eq!(image.pixel(17, 2), (20, 20, 31));
    assert_eq!(image.pixel(18, 2), (0, 0, 0));
    assert_eq!(image.pixel(20, 1), (7, 7, 7));
}

#[test]
fn green_text_becomes_dark() {
    let mut image = RgbImage::new(3, 1);
    image.set_pixel(0, 0, (50, 200, 60));
    image.set_pixel(1, 0, (100, 130, 90));
    image.set_pixel(2, 0, (200, 100, 90));
    extract_green(&mut image);
    assert_eq!(image.pixel(0, 0), (0, 0, 0));
    assert_eq!(image.pixel(1, 0), (135, 135, 135));
    assert_eq!(image.pixel(2, 0), (255, 255, 255));
}

fn request(x: u32, y: u32, w: u32, h: u32, treatment: Treatment) -> OcrRequest {
    OcrRequest { region: Region { x, y, w, h }, treatment }
}

fn striped() -> RgbImage {
    let mut image = RgbImage::new(40, 10);
    for x in 0..40 {
        for y in 0..10 {
            image.set_pixel(x, y, (x as u8, y as u8, 7));
        }
    }
    image
}

#[test]
fn parts_are_prepared_as_they_are_asked_for() {
    let image = striped();
    let plain = prepare(&image, &request(10, 2, 24, 4, Treatment::Plain)).unwrap();
    assert_eq!((plain.width(), plain.height()), (24, 4));
    assert_eq!(plain.pixel(3, 1), (13, 3, 7));
    let gray = prepare(&image, &request(10, 2, 24, 4, Treatment::Gray)).unwrap();
    assert_eq!(gray.pixel(3, 1), (13, 3, 7));
    let masked = prepare(&image, &request(10, 2, 24, 4, Treatment::Masked)).unwrap();
    assert_eq!(masked.pixel(0, 0), (28, 3, 7));
    assert_eq!(masked.pixel(17, 3), (28, 3, 7));
    assert_eq!(masked.pixel(18, 3), (28, 5, 7));
    let green = prepare(&image, &request(0, 9, 2, 1, Treatment::Green)).unwrap();
    assert_eq!(green.pixel(0, 0), (247, 247, 247));
}

#[test]
fn parts_are_enlarged_to_twice_their_size() {
    let mut image = RgbImage::new(40, 10);
    for x in 0..40 {
        for y in 0..10 {
            image.set_pixel(x, y, (200, 100, 50));
        }
    }
    let large = prepare(&image, &request(10, 2, 24, 4, Treatment::Enlarged)).unwrap();
    assert_eq!((large.width(), large.height()), (48, 8));
    assert_eq!(large.pixel(0, 0), (200, 100, 50));
    assert_eq!(large.pixel(47, 7), (200, 100, 50));
}

#[test]
fn parts_outside_the_screenshot_are_not_prepared() {
    let image = striped();
    assert!(prepare(&image, &request(0, 0, 40, 10, Treatment::Plain)).is_some());
    assert!(prepare(&image, &request(1, 0, 40, 10, Treatment::Plain)).is_none());
    assert!(prepare(&image, &request(0, 1, 40, 10, Treatment::Plain)).is_none());
    assert!(prepare(&image, &request(u32::MAX, 0, 1, 1, Treatment::Plain)).is_none());
    assert!(prepare(&image, &request(0, 0, 0, 5, Treatment::Plain)).is_none());
}

#[test]
fn engines_are_given_the_prepared_part() {
    let image = striped();
    let mut ocr = Recorder::new(SizeEngine::new(), Screenshot::new(&image).unwrap());
    let region = Region { x: 1, y: 2, w: 5, h: 3 };
    assert_eq!(read_part(&mut ocr, region, Treatment::Enlarged), Ok("10x6".to_string()));
    assert_eq!(read_part(&mut ocr, region, Treatment::Gray), Ok("5x3 grey".to_string()));
    assert_eq!(ocr.image().width(), 40);
    assert_eq!(ocr.read(&request(39, 0, 5, 5, Treatment::Plain)), Ok(String::new()));
}
