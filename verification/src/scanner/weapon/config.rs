//! Settings of the weapon scanner.
use crate::text::copy_of;
use vstd::prelude::*;

verus! {

/// Settings of the weapon scanner.
#[derive(Clone, Debug)]
pub struct GoodWeaponScannerConfig {
    /// The lowest rarity to keep.
    pub min_rarity: i32,
    pub verbose: bool,
    pub ocr_backend: String,
    /// Delays in milliseconds.
    pub delay_grid_item: u64,
    pub delay_scroll: u64,
    pub delay_tab: u64,
    pub open_delay: u64,
    /// Go on after a failure.
    pub continue_on_failure: bool,
    pub log_progress: bool,
    pub dump_images: bool,
    /// Stop after so many weapons; 0 for all.
    pub max_count: usize,
    /// Do not wait for the lock icon to settle.
    pub skip_lock_delay: bool,
}

impl GoodWeaponScannerConfig {
    /// The settings that nobody has changed.
    pub open spec fn usual(&self) -> bool {
        &&& self.min_rarity == 3
        &&& !self.verbose
        &&& self.ocr_backend@ == "ppocrv4"@
        &&& self.delay_grid_item == 60
        &&& self.delay_scroll == 200
        &&& self.delay_tab == 400
        &&& self.open_delay == 1200
        &&& !self.continue_on_failure
        &&& !self.log_progress
        &&& !self.dump_images
        &&& self.max_count == 0
        &&& !self.skip_lock_delay
    }
}

impl Default for GoodWeaponScannerConfig {
    fn default() -> (config: Self)
        ensures
            config.usual(),
    {
        GoodWeaponScannerConfig {
            min_rarity: 3,
            verbose: false,
            ocr_backend: copy_of("ppocrv4"),
            delay_grid_item: 60,
            delay_scroll: 200,
            delay_tab: 400,
            open_delay: 1200,
            continue_on_failure: false,
            log_progress: false,
            dump_images: false,
            max_count: 0,
            skip_lock_delay: false,
        }
    }
}

/// All weapons of three stars and more are scanned by default, and a failure ends the
/// scan.
pub proof fn weapons_are_scanned_from_three_stars_on(config: GoodWeaponScannerConfig)
    requires
        config.usual(),
    ensures
        config.min_rarity == 3,
        !config.verbose,
        config.ocr_backend@ == "ppocrv4"@,
        config.delay_grid_item == 60,
        config.delay_scroll == 200,
        config.delay_tab == 400,
        config.open_delay == 1200,
        !config.continue_on_failure,
        !config.log_progress,
        !config.dump_images,
        config.max_count == 0,
        !config.skip_lock_delay,
{
}

} // verus!
