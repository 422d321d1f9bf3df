//! The weapon scanner of the command-line application.
pub mod config;
pub mod scanner;
