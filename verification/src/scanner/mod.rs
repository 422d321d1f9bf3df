//! Scanners for artifacts, characters and weapons.
pub mod artifact;
pub mod character;
pub mod common;
pub mod weapon;
