//! Settings of the character scanner.
use vstd::prelude::*;

verus! {

/// Settings of the character scanner.
#[derive(Clone, Debug)]
pub struct GoodCharacterScannerConfig {
    pub verbose: bool,
    pub ocr_backend: String,
    /// Delays in milliseconds.
    pub tab_delay: u64,
    pub open_delay: u64,
    /// Go on after a failure.
    pub continue_on_failure: bool,
    pub log_progress: bool,
    pub dump_images: bool,
}

} // verus!
