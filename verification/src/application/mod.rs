//! What the application does with its settings.
pub mod good_scanner;
