//! How markers are read, under the first name of these choices.

use crate::to_parser::parser_option::{ParserOptionView, ToParserOption};
use crate::to_ticket::to_ticket_marker::ToMarker;
use vstd::prelude::*;

verus! {

/// The format of the markers and the format of the time in them.
pub struct ParserOption {
    pub to_marker: ToMarker,
    pub date_format: String,
}

impl View for ParserOption {
    type V = ParserOptionView;

    open spec fn view(&self) -> ParserOptionView {
        ParserOptionView { marker: self.to_marker@, date_format: self.date_format@ }
    }
}

impl Default for ParserOption {
    fn default() -> (option: Self)
        ensures
            option@ == ParserOptionView::standard(),
    {
        ParserOption { to_marker: ToMarker::default(), date_format: "%Y-%m-%d %H:%M:%S".to_owned() }
    }
}

impl ParserOption {
    /// The same choices under their present name.
    pub fn into_parser_option(self) -> (option: ToParserOption)
        ensures
            option@ == self@,
    {
        ToParserOption { to_marker: self.to_marker, date_format: self.date_format }
    }
}

} // verus!
