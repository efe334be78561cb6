//! Why a marker could not be read.

use vstd::prelude::*;

verus! {

/// An error as plain values.
pub enum ToTicketErrorView {
    MalformedTimestamp { value: Seq<char> },
}

/// The ways in which reading a marker fails.
#[derive(Debug)]
pub enum ToTicketError {
    /// The value of an `updated` entry is no time in the configured format.
    MalformedTimestamp { value: String },
}

impl View for ToTicketError {
    type V = ToTicketErrorView;

    open spec fn view(&self) -> ToTicketErrorView {
        match self {
            ToTicketError::MalformedTimestamp { value } => ToTicketErrorView::MalformedTimestamp {
                value: value@,
            },
        }
    }
}

} // verus!
