//! The scanner under its first name.

pub mod parser;
pub mod parser_option;
