//! Languages, cancelling, plans and times.
use good_scanner::application::good_scanner::{
    chrono_timestamp, export_filename, is_leap, GoodScannerConfig,
};
use good_scanner::cancel::{CancelToken, StopReason};
use good_scanner::good_common::models::GoodExport;
use good_scanner::lang::{get_lang, is_en, localize, set_lang, Lang};

#[test]
fn messages_have_two_halves() {
    let mut lang = Lang::default();
    assert_eq!(get_lang(&lang), "zh");
    assert_eq!(localize(&lang, "你好 / hello"), "你好");
    set_lang(&mut lang, "en");
    assert!(is_en(&lang));
    assert_eq!(localize(&lang, "你好 / hello"), "hello");
    assert_eq!(localize(&lang, "a / b / c"), "b / c");
    assert_eq!(localize(&lang, "plain"), "plain");
    set_lang(&mut lang, "fr");
    assert_eq!(get_lang(&lang), "zh");
    assert_eq!(localize(&lang, "plain"), "plain");
}

#[test]
fn the_first_reason_to_stop_stays() {
    let mut token = CancelToken::new();
    assert!(!token.is_cancelled());
    assert!(token.reason().is_none());
    assert!(!token.check_rmb(false));
    assert!(token.check_rmb(true));
    assert!(token.is_cancelled());
    token.cancel(StopReason::Error);
    assert_eq!(token.reason(), Some(StopReason::UserAbort));
    assert!(token.check_rmb(false));
}

#[test]
fn reasons_have_codes() {
    for reason in [StopReason::UserAbort, StopReason::GameLost, StopReason::Error] {
        assert_eq!(StopReason::from_u8(reason.to_u8()), Some(reason));
        assert!(!reason.message().is_empty());
    }
    assert_eq!(StopReason::from_u8(0), None);
    assert_eq!(StopReason::from_u8(200), None);
}

fn config(characters: bool, weapons: bool, artifacts: bool, all: bool) -> GoodScannerConfig {
    GoodScannerConfig {
        scan_characters: characters,
        scan_weapons: weapons,
        scan_artifacts: artifacts,
        scan_all: all,
        output_dir: ".".to_string(),
        traveler_name: Some("荧".to_string()),
        wanderer_name: None,
        manekin_name: None,
        manekina_name: None,
    }
}

#[test]
fn without_a_choice_everything_is_scanned() {
    let plan = config(false, false, false, false).scan_plan();
    assert!(plan.characters && plan.weapons && plan.artifacts && plan.backpack_open);
    let plan = config(true, false, false, true).scan_plan();
    assert!(plan.characters && plan.weapons && plan.artifacts && plan.backpack_open);
    let plan = config(false, true, false, false).scan_plan();
    assert!(!plan.characters && plan.weapons && !plan.artifacts);
    let names = config(false, false, false, false).name_overrides();
    assert_eq!(names.traveler_name, Some("荧".to_string()));
    assert_eq!(names.wanderer_name, None);
}

#[test]
fn times_are_written_as_dates() {
    assert!(is_leap(2000) && is_leap(2024) && !is_leap(1900) && !is_leap(2023));
    assert_eq!(chrono_timestamp(0), "1970-01-01_00-00-00");
    assert_eq!(chrono_timestamp(951_782_400), "2000-02-29_00-00-00");
    assert_eq!(chrono_timestamp(1_700_000_000), "2023-11-14_22-13-20");
    assert_eq!(export_filename("2023-11-14_22-13-20"), "good_export_2023-11-14_22-13-20.json");
}

#[test]
fn exports_have_the_header_of_the_format() {
    let export = GoodExport::new(None, None, None);
    assert_eq!(export.format, "GOOD");
    assert_eq!(export.version, 3);
    assert_eq!(export.source, "yas-GOODScanner");
    assert!(export.artifacts.is_none());
}
