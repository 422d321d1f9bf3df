//! Versions, downloads and their sources.
use good_scanner::updater::{
    accept_tag, after_attempt, after_write, check_download, check_for_update,
    current_version_display, current_version_int, extract_tag_from_url, parse_calver_tag,
    source_url, Attempt, DownloadAction, DownloadFault, InstallAction, UpdateError, UpdateStatus,
};

#[test]
fn tags_are_dates() {
    assert_eq!(parse_calver_tag("v2026.03.27"), Some(20260327));
    assert_eq!(parse_calver_tag("2026.3.7"), Some(20260307));
    assert_eq!(parse_calver_tag("v2019.03.27"), None);
    assert_eq!(parse_calver_tag("v2026.13.01"), None);
    assert_eq!(parse_calver_tag("v2026.00.01"), None);
    assert_eq!(parse_calver_tag("v2026.01.32"), None);
    assert_eq!(parse_calver_tag("v2026.03"), None);
    assert_eq!(parse_calver_tag("v2026.03.27.1"), None);
    assert_eq!(parse_calver_tag("v2026.x.27"), None);
    assert_eq!(parse_calver_tag("v2026.+3.27"), Some(20260327));
}

#[test]
fn releases_have_a_date_for_a_version() {
    assert_eq!(current_version_int("20260327.0.0"), Some(20260327));
    assert_eq!(current_version_int("0.1.0"), None);
    assert_eq!(current_version_int("x.1.0"), None);
    assert_eq!(current_version_display("20260307.0.0"), "v2026.03.07");
    assert_eq!(current_version_display("0.1.0"), "v0.1.0");
    assert_eq!(current_version_display("abc"), "vabc");
}

#[test]
fn tags_are_taken_from_addresses() {
    let base = "https://github.com/Anyrainel/GOODScanner/releases/tag/";
    assert_eq!(
        extract_tag_from_url(&format!("{}v2026.03.27", base)),
        Some("v2026.03.27".to_string())
    );
    assert_eq!(
        extract_tag_from_url(&format!("{}v2026.03.27?x=1#y", base)),
        Some("v2026.03.27".to_string())
    );
    assert_eq!(extract_tag_from_url(&format!("{}latest", base)), None);
    assert_eq!(extract_tag_from_url("https://github.com/"), None);
    assert_eq!(accept_tag("v2026.03.27".to_string()), Some("v2026.03.27".to_string()));
    assert_eq!(accept_tag("nightly".to_string()), None);
}

#[test]
fn a_later_tag_is_an_update() {
    let status = check_for_update("20260101.0.0", Some("v2026.03.27".to_string()), None);
    match status {
        Ok(UpdateStatus::UpdateAvailable { current_version, latest_version, download_url }) => {
            assert_eq!(current_version, "v2026.01.01");
            assert_eq!(latest_version, "v2026.03.27");
            assert_eq!(
                download_url,
                "https://github.com/Anyrainel/GOODScanner/releases/download/v2026.03.27/GOODScanner.exe"
            );
        }
        _ => panic!("no update"),
    }
    assert!(matches!(
        check_for_update("20260327.0.0", Some("v2026.03.27".to_string()), None),
        Ok(UpdateStatus::UpToDate)
    ));
    // the redirect counts only without an answer of the interface
    assert!(matches!(
        check_for_update("20260327.0.0", None, Some("v2026.03.28".to_string())),
        Ok(UpdateStatus::UpdateAvailable { .. })
    ));
    assert!(matches!(
        check_for_update(
            "20260327.0.0",
            Some("v2026.03.27".to_string()),
            Some("v2026.03.28".to_string())
        ),
        Ok(UpdateStatus::UpToDate)
    ));
    assert!(matches!(check_for_update("0.1.0", None, None), Ok(UpdateStatus::DevBuild)));
    assert!(matches!(check_for_update("20260327.0.0", None, None), Err(UpdateError::NoTag)));
    assert!(matches!(
        check_for_update("20260327.0.0", Some("x".to_string()), None),
        Err(UpdateError::BadTag(t)) if t == "x"
    ));
}

#[test]
fn downloads_are_executables_of_some_size() {
    let mut bytes = vec![0u8; 1_000_000];
    assert!(matches!(check_download(&bytes), Some(DownloadFault::NotExecutable)));
    bytes[0] = b'M';
    bytes[1] = b'Z';
    assert!(check_download(&bytes).is_none());
    bytes.pop();
    assert!(matches!(check_download(&bytes), Some(DownloadFault::TooSmall)));
    assert!(matches!(check_download(&[]), Some(DownloadFault::NotExecutable)));
}

#[test]
fn sources_are_tried_in_order() {
    assert_eq!(source_url(0, "https://x/y"), "https://ghfast.top/https://x/y");
    assert_eq!(source_url(1, "https://x/y"), "https://gh-proxy.com/https://x/y");
    assert_eq!(source_url(2, "https://x/y"), "https://x/y");
    assert!(matches!(after_attempt(0, Attempt::Failed), DownloadAction::Try(1)));
    assert!(matches!(after_attempt(1, Attempt::Refused), DownloadAction::Try(2)));
    assert!(matches!(
        after_attempt(2, Attempt::Received(Some(DownloadFault::TooSmall))),
        DownloadAction::GiveUp
    ));
    assert!(matches!(after_attempt(0, Attempt::Received(None)), DownloadAction::Install));
    assert!(matches!(after_write(true), InstallAction::Done));
    assert!(matches!(after_write(false), InstallAction::RollBack));
}
