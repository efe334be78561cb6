//! Finding the markers of a text.

pub mod parser;
pub mod parser_option;
pub mod scan_laws;
