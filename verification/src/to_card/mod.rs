//! The card of a textual object, and the rules that fill it.

pub mod to_card_convert_rule;
pub mod to_card_struct;
