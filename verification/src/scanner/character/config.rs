//! Settings of the character scanner.
use crate::text::copy_of;
use vstd::prelude::*;

verus! {

/// Settings of the character scanner.
#[derive(Clone, Debug)]
pub struct GoodCharacterScannerConfig {
    pub verbose: bool,
    pub ocr_backend: String,
    /// Delays in milliseconds.
    pub tab_delay: u64,
    pub open_delay: u64,
    /// Go on after a failure.
    pub continue_on_failure: bool,
    pub log_progress: bool,
    pub dump_images: bool,
    /// Stop after so many characters; 0 for all.
    pub max_count: usize,
}

impl GoodCharacterScannerConfig {
    /// The settings that nobody has changed.
    pub open spec fn usual(&self) -> bool {
        &&& !self.verbose
        &&& self.ocr_backend@ == "ppocrv4"@
        &&& self.tab_delay == 400
        &&& self.open_delay == 1200
        &&& !self.continue_on_failure
        &&& !self.log_progress
        &&& !self.dump_images
        &&& self.max_count == 0
    }
}

impl Default for GoodCharacterScannerConfig {
    fn default() -> (config: Self)
        ensures
            config.usual(),
    {
        GoodCharacterScannerConfig {
            verbose: false,
            ocr_backend: copy_of("ppocrv4"),
            tab_delay: 400,
            open_delay: 1200,
            continue_on_failure: false,
            log_progress: false,
            dump_images: false,
            max_count: 0,
        }
    }
}

/// All characters are scanned by default, and a failure ends the scan.
pub proof fn characters_are_all_scanned(config: GoodCharacterScannerConfig)
    requires
        config.usual(),
    ensures
        !config.verbose,
        config.ocr_backend@ == "ppocrv4"@,
        config.tab_delay == 400,
        config.open_delay == 1200,
        !config.continue_on_failure,
        !config.log_progress,
        !config.dump_images,
        config.max_count == 0,
{
}

} // verus!
