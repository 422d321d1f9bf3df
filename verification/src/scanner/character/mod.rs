//! The character scanner.
pub mod config;
pub mod constellation;
pub mod level;
pub mod name;
pub mod scanner;
pub mod second_pass;
pub mod talents;
