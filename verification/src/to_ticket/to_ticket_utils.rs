//! The minimal marker of an id, without a ticket.

use crate::text::chars_of;
use crate::to_ticket::to_ticket_marker::{MarkerView, ToMarker};
use crate::to_ticket::to_ticket_write::{frame, lemma_minimal_text_standard, minimal_text};
use vstd::prelude::*;

verus! {

/// The marker that shows `ticket_id` alone, in the format `opt` or, without
/// one, in the standard format.
pub fn print_minimal_ticket(ticket_id: &str, opt: Option<ToMarker>) -> (text: String)
    ensures
        text@ == minimal_text(
            ticket_id@,
            match opt {
                Some(marker) => marker@,
                None => MarkerView::standard(),
            },
        ),
        opt is None ==> text@ == "[[id: "@ + ticket_id@ + "]]"@,
{
    let to_marker = match opt {
        Some(marker) => marker,
        None => ToMarker::default(),
    };
    proof {
        lemma_minimal_text_standard(ticket_id@);
    }
    let mut line = chars_of("id: ");
    let id = chars_of(ticket_id);
    crate::text::push_range(&mut line, id.as_slice(), 0, id.len());
    assert(id@.subrange(0, id@.len() as int) =~= id@);
    let mut lines: Vec<Vec<char>> = Vec::new();
    lines.push(line);
    assert(crate::text::views(lines@) =~= seq!["id: "@ + ticket_id@]);
    frame(
        &lines,
        to_marker.left_marker.as_str(),
        to_marker.value_entry_separator.as_str(),
        to_marker.right_marker.as_str(),
    )
}

} // verus!
