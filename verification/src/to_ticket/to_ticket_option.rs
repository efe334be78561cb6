//! What a ticket writes besides its id and its values.

use vstd::prelude::*;

verus! {

/// The choices of [`crate::to_ticket::to_ticket_struct::ToTicket::print`].
#[derive(Clone, Copy, Debug)]
pub struct ToTicketPrintOption {
    /// Write the time of the last update.
    pub include_updated: bool,
    /// Kept for callers that set it; no ticket holds a time of creation.
    pub include_created: bool,
    /// Write the entry labelled `store_info`.
    pub include_store_info: bool,
    /// Write the entry labelled `store_id`.
    pub include_store_id: bool,
    /// Write the id alone, whatever the other choices are.
    pub minimal: bool,
}

impl ToTicketPrintOption {
    /// Everything is written.
    pub open spec fn full() -> ToTicketPrintOption {
        ToTicketPrintOption {
            include_updated: true,
            include_created: true,
            include_store_info: true,
            include_store_id: true,
            minimal: false,
        }
    }
}

impl Default for ToTicketPrintOption {
    fn default() -> (option: Self)
        ensures
            option == ToTicketPrintOption::full(),
    {
        ToTicketPrintOption {
            include_updated: true,
            include_created: true,
            include_store_info: true,
            include_store_id: true,
            minimal: false,
        }
    }
}

} // verus!
