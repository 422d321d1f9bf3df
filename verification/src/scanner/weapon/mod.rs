//! The weapon scanner.
pub mod config;
pub mod debug;
pub mod scanner;
pub mod weapon_laws;
