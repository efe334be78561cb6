//! Small enumerations.

pub mod store_type;
