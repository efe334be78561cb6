//! Finding all markers of a text.

use crate::to_parser::parser::{scan, scanned};
use crate::to_ticket::parser::parser_option::ParserOption;
use crate::to_ticket::to_ticket_error::ToTicketError;
use crate::to_ticket::to_ticket_struct::ToTicket;
use vstd::prelude::*;

verus! {

/// Every marker of `text` as a ticket, in the order of the markers, or the
/// error of the first marker that cannot be read.
pub fn match_all_marks(text: &str, opt: ParserOption) -> (found: Result<
    Vec<ToTicket>,
    ToTicketError,
>)
    requires
        opt@.marker.wf(),
    ensures
        scanned(found, text@, opt@),
{
    let option = opt.into_parser_option();
    scan(text, &option)
}

} // verus!
