//! The character scanner of the command-line application.
pub mod config;
