//! The ticket itself.

use crate::to_ticket::to_ticket_marker::{MarkerView, ToMarker};
use crate::to_ticket::to_ticket_position::{PositionView, ToTicketPositionInfo};
use crate::to_ticket::to_ticket_time::{valid_timestamp, TimestampView, ToTimestamp};
use crate::to_ticket::to_ticket_values::{
    entries_of, keys_distinct, values_clone, values_new, Entry,
};
use crate::utils::id_generator::{generate_id, is_fresh_id};
use indexmap::IndexMap;
use vstd::prelude::*;

verus! {

/// A ticket as plain values.
pub struct TicketView {
    pub id: Seq<char>,
    pub ticket_id: Seq<char>,
    pub values: Seq<Entry>,
    pub updated: TimestampView,
    pub store_url: Option<Seq<char>>,
    pub store_info: Option<Seq<char>>,
    pub marker: MarkerView,
    pub position: Option<PositionView>,
}

/// `key` names a field of the ticket and never stands among its values:
/// `id`, `updated`, `store_id` or `store_info`.
pub open spec fn is_reserved_key(key: Seq<char>) -> bool {
    key == "id"@ || key == "updated"@ || key == "store_id"@ || key == "store_info"@
}

impl TicketView {
    /// The ticket has an id, and among its values no key stands twice and
    /// none is reserved.
    pub open spec fn wf(self) -> bool {
        &&& self.ticket_id.len() > 0
        &&& keys_distinct(self.values)
        &&& forall|i: int| 0 <= i < self.values.len() ==> !is_reserved_key(#[trigger] self.values[i].0)
    }

    /// The ticket that holds nothing but an id and a time.
    pub open spec fn blank(ticket_id: Seq<char>, updated: TimestampView) -> TicketView {
        TicketView {
            id: Seq::<char>::empty(),
            ticket_id,
            values: Seq::<Entry>::empty(),
            updated,
            store_url: None,
            store_info: None,
            marker: MarkerView::standard(),
            position: None,
        }
    }
}

/// What one marker says: the id of the textual object that it stands for,
/// free key-value pairs in the order in which they were written, the time of
/// the last change, and two notes on where the object is stored.
pub struct ToTicket {
    /// The id of the object in its store; empty where it is not known.
    pub id: String,
    /// The short id that the marker shows.
    pub ticket_id: String,
    /// The free key-value pairs.
    pub values: IndexMap<String, String>,
    /// The time of the last change.
    pub to_updated: ToTimestamp,
    /// Where the object is stored, for a reader.
    pub to_store_url: Option<String>,
    /// What the store is.
    pub to_store_info: Option<String>,
    /// The format in which the ticket is written.
    pub to_marker: ToMarker,
    /// Where the marker was found, where it was found in a text.
    pub to_intext_option: Option<ToTicketPositionInfo>,
}

/// The characters of an optional string.
pub open spec fn option_view(s: Option<String>) -> Option<Seq<char>> {
    match s {
        Some(s) => Some(s@),
        None => None,
    }
}

impl View for ToTicket {
    type V = TicketView;

    open spec fn view(&self) -> TicketView {
        TicketView {
            id: self.id@,
            ticket_id: self.ticket_id@,
            values: entries_of(self.values),
            updated: self.to_updated@,
            store_url: option_view(self.to_store_url),
            store_info: option_view(self.to_store_info),
            marker: self.to_marker@,
            position: match self.to_intext_option {
                Some(p) => Some(p@),
                None => None,
            },
        }
    }
}

/// A copy of an optional string.
pub(crate) fn clone_option(s: &Option<String>) -> (copy: Option<String>)
    ensures
        option_view(copy) == option_view(*s),
{
    match s {
        Some(s) => Some(s.clone()),
        None => None,
    }
}

impl Clone for ToTicket {
    fn clone(&self) -> (copy: Self)
        ensures
            copy@ == self@,
    {
        ToTicket {
            id: self.id.clone(),
            ticket_id: self.ticket_id.clone(),
            values: values_clone(&self.values),
            to_updated: self.to_updated,
            to_store_url: clone_option(&self.to_store_url),
            to_store_info: clone_option(&self.to_store_info),
            to_marker: self.to_marker.clone(),
            to_intext_option: match &self.to_intext_option {
                Some(p) => Some(p.clone()),
                None => None,
            },
        }
    }
}

impl ToTicket {
    /// The ticket that holds nothing but the given id and time, in the
    /// standard format.
    pub fn blank(ticket_id: String, updated: ToTimestamp) -> (ticket: ToTicket)
        ensures
            ticket@ == TicketView::blank(ticket_id@, updated@),
    {
        ToTicket {
            id: String::new(),
            ticket_id,
            values: values_new(),
            to_updated: updated,
            to_store_url: None,
            to_store_info: None,
            to_marker: ToMarker::default(),
            to_intext_option: None,
        }
    }
}

impl Default for ToTicket {
    /// A new ticket: a fresh id of five characters, the present time, and
    /// nothing else.
    fn default() -> (ticket: Self)
        ensures
            is_fresh_id(ticket@.ticket_id, 5),
            valid_timestamp(ticket@.updated.secs, ticket@.updated.nanos),
            ticket@ == TicketView::blank(ticket@.ticket_id, ticket@.updated),
            ticket@.wf(),
    {
        ToTicket::blank(generate_id(), ToTimestamp::now())
    }
}

} // verus!
