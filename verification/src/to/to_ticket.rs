//! The minimal marker of a textual object.

use crate::to::to_struct::{TextualObject, TextualObjectView};
use crate::to_ticket::to_ticket_marker::MarkerView;
use crate::to_ticket::to_ticket_write::minimal_text;
use vstd::prelude::*;

verus! {

impl TextualObject {
    /// The marker that shows the ticket id of the object alone.
    pub fn print_minimal_ticket(&self) -> (text: String)
        ensures
            text@ == minimal_text(self@.ticket_id, MarkerView::standard()),
            text@ == "[[id: "@ + self@.ticket_id + "]]"@,
    {
        let ticket = self.to_ticket();
        ticket.print_minimal()
    }

    /// Writes the minimal marker of the object into it, and hands back a
    /// copy of the object.
    pub fn update_minimal_ticket(&mut self) -> (copy: Self)
        ensures
            final(self)@ == (TextualObjectView {
                ticket_minimal: minimal_text(old(self)@.ticket_id, MarkerView::standard()),
                ..old(self)@
            }),
            copy@ == final(self)@,
            final(self).id == old(self).id,
            final(self).json == old(self).json,
    {
        let ticket_minimal = self.print_minimal_ticket();
        self.ticket_minimal = ticket_minimal;
        self.clone()
    }
}

} // verus!
