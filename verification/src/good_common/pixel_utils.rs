//! What single pixels of a screenshot tell.
use crate::image::RgbImage;
use crate::scanner::common::constants::STAR_Y;
use crate::scanner::common::coord_scaler::CoordScaler;
use crate::scanner::common::pixel_utils::{is_star_yellow, yellow_at};
use vstd::prelude::*;

verus! {

/// The rarity of a weapon, by the three places where its last star can be.
pub open spec fn weapon_stars(image: RgbImage, scaler: CoordScaler) -> int {
    if yellow_at(image, scaler, 1485, STAR_Y as int) {
        5
    } else if yellow_at(image, scaler, 1450, STAR_Y as int) {
        4
    } else if yellow_at(image, scaler, 1416, STAR_Y as int) {
        3
    } else {
        2
    }
}

/// The rarity of an artifact, by the two places where its last star can be.
pub open spec fn artifact_stars(image: RgbImage, scaler: CoordScaler) -> int {
    if yellow_at(image, scaler, 1485, STAR_Y as int) {
        5
    } else if yellow_at(image, scaler, 1450, STAR_Y as int) {
        4
    } else {
        3
    }
}

/// The rarity of a weapon, by the three places where its last star can be.
pub fn detect_weapon_rarity(image: &RgbImage, scaler: &CoordScaler) -> (rarity: i32)
    ensures
        rarity == weapon_stars(*image, *scaler),
{
    if is_star_yellow(image, scaler, 1485, STAR_Y) {
        5
    } else if is_star_yellow(image, scaler, 1450, STAR_Y) {
        4
    } else if is_star_yellow(image, scaler, 1416, STAR_Y) {
        3
    } else {
        2
    }
}

/// The rarity of an artifact, by the two places where its last star can be.
pub fn detect_artifact_rarity(image: &RgbImage, scaler: &CoordScaler) -> (rarity: i32)
    ensures
        rarity == artifact_stars(*image, *scaler),
{
    if is_star_yellow(image, scaler, 1485, STAR_Y) {
        5
    } else if is_star_yellow(image, scaler, 1450, STAR_Y) {
        4
    } else {
        3
    }
}

} // verus!
