//! How markers are read.

use crate::to_ticket::to_ticket_marker::{MarkerView, ToMarker};
use vstd::prelude::*;

verus! {

/// The reader's choices as plain values.
pub struct ParserOptionView {
    pub marker: MarkerView,
    pub date_format: Seq<char>,
}

/// The format of the markers and the format of the time in them.
pub struct ToParserOption {
    pub to_marker: ToMarker,
    pub date_format: String,
}

impl ParserOptionView {
    /// The standard markers, and the time as year, month and day, then hour,
    /// minute and second.
    pub open spec fn standard() -> ParserOptionView {
        ParserOptionView { marker: MarkerView::standard(), date_format: "%Y-%m-%d %H:%M:%S"@ }
    }
}

impl View for ToParserOption {
    type V = ParserOptionView;

    open spec fn view(&self) -> ParserOptionView {
        ParserOptionView { marker: self.to_marker@, date_format: self.date_format@ }
    }
}

impl Default for ToParserOption {
    fn default() -> (option: Self)
        ensures
            option@ == ParserOptionView::standard(),
    {
        ToParserOption {
            to_marker: ToMarker::default(),
            date_format: "%Y-%m-%d %H:%M:%S".to_owned(),
        }
    }
}

} // verus!
