//! Places on the screen, at the base resolution of 1920 by 1080.
use vstd::prelude::*;

verus! {

/// The row of the rarity stars.
pub const STAR_Y: i32 = 372;

/// The lock icon of an artifact.
pub const ARTIFACT_LOCK_X1: i32 = 1683;
pub const ARTIFACT_LOCK_Y1: i32 = 428;
pub const ARTIFACT_LOCK_X2: i32 = 1708;
pub const ARTIFACT_LOCK_Y2: i32 = 428;

/// The astral mark of an artifact.
pub const ARTIFACT_ASTRAL_X1: i32 = 1768;
pub const ARTIFACT_ASTRAL_Y1: i32 = 428;
pub const ARTIFACT_ASTRAL_X2: i32 = 1740;
pub const ARTIFACT_ASTRAL_Y2: i32 = 429;

/// The lock icon of a weapon.
pub const WEAPON_LOCK_X1: i32 = 1768;
pub const WEAPON_LOCK_Y1: i32 = 428;
pub const WEAPON_LOCK_X2: i32 = 1740;
pub const WEAPON_LOCK_Y2: i32 = 429;

/// How much lower the card of an elixir-crafted artifact continues.
pub const ELIXIR_SHIFT: i32 = 40;

/// The items of a backpack page.
pub const GRID_COLS: usize = 8;
pub const GRID_ROWS: usize = 5;

} // verus!
