//! The scanner as a free function.

pub mod parser;
