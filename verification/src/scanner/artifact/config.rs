//! Settings of the artifact scanner.
use crate::text::copy_of;
use vstd::prelude::*;

verus! {

/// Settings of the artifact scanner.
#[derive(Clone, Debug)]
pub struct GoodArtifactScannerConfig {
    /// The lowest rarity to keep.
    pub min_rarity: i32,
    pub verbose: bool,
    pub ocr_backend: String,
    /// The engine for all but levels.
    pub substat_ocr_backend: String,
    /// Delays in milliseconds.
    pub delay_scroll: u64,
    pub delay_tab: u64,
    pub open_delay: u64,
    pub capture_delay: u64,
    /// Go on after a failure.
    pub continue_on_failure: bool,
    pub log_progress: bool,
    pub dump_images: bool,
    /// Stop after so many artifacts; 0 for all.
    pub max_count: usize,
}

impl GoodArtifactScannerConfig {
    /// The settings that nobody has changed.
    pub open spec fn usual(&self) -> bool {
        &&& self.min_rarity == 4
        &&& !self.verbose
        &&& self.ocr_backend@ == "ppocrv5"@
        &&& self.substat_ocr_backend@ == "ppocrv4"@
        &&& self.delay_scroll == 200
        &&& self.delay_tab == 400
        &&& self.open_delay == 1200
        &&& self.capture_delay == 60
        &&& !self.continue_on_failure
        &&& !self.log_progress
        &&& !self.dump_images
        &&& self.max_count == 0
    }
}

impl Default for GoodArtifactScannerConfig {
    fn default() -> (config: Self)
        ensures
            config.usual(),
    {
        GoodArtifactScannerConfig {
            min_rarity: 4,
            verbose: false,
            ocr_backend: copy_of("ppocrv5"),
            substat_ocr_backend: copy_of("ppocrv4"),
            delay_scroll: 200,
            delay_tab: 400,
            open_delay: 1200,
            capture_delay: 60,
            continue_on_failure: false,
            log_progress: false,
            dump_images: false,
            max_count: 0,
        }
    }
}

/// All artifacts of four stars and more are scanned by default, and a failure ends the
/// scan.
pub proof fn artifacts_are_scanned_from_four_stars_on(config: GoodArtifactScannerConfig)
    requires
        config.usual(),
    ensures
        config.min_rarity == 4,
        !config.verbose,
        config.ocr_backend@ == "ppocrv5"@,
        config.substat_ocr_backend@ == "ppocrv4"@,
        config.delay_scroll == 200,
        config.delay_tab == 400,
        config.open_delay == 1200,
        config.capture_delay == 60,
        !config.continue_on_failure,
        !config.log_progress,
        !config.dump_images,
        config.max_count == 0,
{
}

} // verus!
