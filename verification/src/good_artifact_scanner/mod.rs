//! The artifact scanner of the command-line application.
pub mod config;
pub mod rows;
pub mod scanner;
