//! The artifact scanner.
pub mod artifact_laws;
pub mod config;
pub mod debug;
pub mod debug_laws;
pub mod regions;
pub mod scanner;
pub mod set_laws;
pub mod set_name;
pub mod set_reader;
pub mod substat_laws;
pub mod substat_reader;
pub mod substats;
