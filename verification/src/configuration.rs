//! Rule configuration: named matching profiles and their lookup table.

pub mod config;
pub mod language_option;
