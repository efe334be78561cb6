//! Tags: markers that hold a key, a value and a note instead of entries.

pub mod to_tag_struct;
