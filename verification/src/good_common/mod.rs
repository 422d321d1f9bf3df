//! What the scanners of the command-line application share.
pub mod debug_dump;
pub mod equip_parser;
pub mod fuzzy_match;
pub mod models;
pub mod navigation;
pub mod ocr_model;
pub mod pixel_utils;
pub mod stat_laws;
pub mod stat_parser;
