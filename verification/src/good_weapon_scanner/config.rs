//! Settings of the weapon scanner.
use vstd::prelude::*;

verus! {

/// Settings of the weapon scanner.
#[derive(Clone, Debug)]
pub struct GoodWeaponScannerConfig {
    /// The lowest rarity to keep.
    pub min_rarity: i32,
    pub verbose: bool,
    pub ocr_backend: String,
    /// Delays in milliseconds.
    pub delay_grid_item: u64,
    pub delay_scroll: u64,
    pub delay_tab: u64,
    pub open_delay: u64,
    /// Go on after a failure.
    pub continue_on_failure: bool,
    pub log_progress: bool,
    pub dump_images: bool,
}

} // verus!
