//! What the scanners share.
pub mod backpack_scanner;
pub mod constants;
pub mod coord_scaler;
pub mod debug_fields;
pub mod edit_laws;
pub mod equip_parser;
pub mod fuzzy_match;
pub mod game_controller;
pub mod grid_voter;
pub mod level_laws;
pub mod level_text;
pub mod mappings;
pub mod models;
pub mod name_laws;
pub mod ocr;
pub mod ocr_pool;
pub mod pixel_laws;
pub mod pixel_utils;
pub mod roll_laws;
pub mod roll_solver;
pub mod scan_session;
pub mod scan_worker;
pub mod solver_laws;
pub mod test_utils;
pub mod treatments;
