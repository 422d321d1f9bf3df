//! Scanning logic for a game inventory: reading recognised text, pixels and
//! grids, checking what was read against the rules of the game, and serving
//! the results.
pub mod application;
pub mod cancel;
pub mod good_artifact_scanner;
pub mod good_character_scanner;
pub mod good_common;
pub mod good_weapon_scanner;
pub mod image;
pub mod lang;
pub mod name_map;
pub mod number;
pub mod patterns;
pub mod scanner;
pub mod server;
pub mod text;
pub mod text_laws;
pub mod updater;
