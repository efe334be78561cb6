//! The textual object as it is stored.

use crate::to_card::to_card_struct::ToCard;
use crate::to_ticket::to_ticket_marker::MarkerView;
use crate::to_ticket::to_ticket_struct::{TicketView, ToTicket};
use crate::to_ticket::to_ticket_time::{TimestampView, ToTimestamp};
use crate::to_ticket::to_ticket_utils::print_minimal_ticket;
use crate::to_ticket::to_ticket_values::{values_insert, with_entry, Entry};
use crate::to_ticket::to_ticket_write::minimal_text;
use crate::utils::id_generator::{generate_id, is_fresh_id};
use uuid::Uuid;
use vstd::prelude::*;
use vstd::std_specs::convert::FromSpecImpl;

verus! {

#[verifier::external_type_specification]
#[verifier::external_body]
pub struct ExUuid(Uuid);

#[verifier::external_type_specification]
#[verifier::external_body]
pub struct ExJsonValue(serde_json::Value);

/// `Uuid::clone`: ids are carried, never read, so nothing is said of the copy.
pub assume_specification[ <Uuid as Clone>::clone ](id: &Uuid) -> Uuid
;

/// The members of a JSON object, each as its name and the JSON text of its
/// value, in the order in which the object walks them; `None` for a value
/// that is no object.
pub uninterp spec fn json_fields(json: serde_json::Value) -> Option<Seq<Entry>>;

/// `Uuid::new_v4`: a random id.
#[verifier::external_body]
pub(crate) fn new_uuid() -> (id: Uuid) {
    Uuid::new_v4()
}

/// `serde_json::Value::Null`: the JSON value `null`, which is no object.
#[verifier::external_body]
pub(crate) fn json_null() -> (json: serde_json::Value)
    ensures
        json_fields(json) is None,
{
    serde_json::Value::Null
}

/// `serde_json::Value::clone`: a value with the same members.
#[verifier::external_body]
pub(crate) fn json_clone(json: &serde_json::Value) -> (copy: serde_json::Value)
    ensures
        json_fields(copy) == json_fields(*json),
{
    json.clone()
}

/// `Value::as_object`, `Map::iter` and `Value::to_string`: the members of a
/// JSON object, each as its name and the JSON text of its value.
#[verifier::external_body]
pub(crate) fn json_object_entries(json: &serde_json::Value) -> (members: Option<
    Vec<(String, String)>,
>)
    ensures
        match members {
            Some(found) => json_fields(*json) == Some(pair_views(found@)),
            None => json_fields(*json) is None,
        },
{
    json.as_object().map(|object| object.iter().map(|(k, v)| (k.to_string(), v.to_string())).collect())
}

/// The character sequences of the pairs of a vector.
pub open spec fn pair_views(pairs: Seq<(String, String)>) -> Seq<Entry> {
    Seq::new(pairs.len(), |i: int| (pairs[i].0@, pairs[i].1@))
}

/// A textual object as plain values. The id, the card and the JSON value
/// are left out but for the members of the JSON value.
pub struct TextualObjectView {
    pub ticket_id: Seq<char>,
    pub ticket_minimal: Seq<char>,
    pub source_id: Seq<char>,
    pub source_name: Seq<char>,
    pub source_id_type: Seq<char>,
    pub source_path: Seq<char>,
    pub store_info: Seq<char>,
    pub store_url: Seq<char>,
    pub created: TimestampView,
    pub updated: TimestampView,
    pub json: Option<Seq<Entry>>,
    pub card_map: Seq<char>,
}

/// A textual object: a piece of text from some source, with the ticket that
/// stands for it and the store that keeps it.
pub struct TextualObject {
    pub id: Uuid,
    /// The id that its markers show.
    pub ticket_id: String,
    /// Its minimal marker.
    pub ticket_minimal: String,
    /// Its id in the source, such as a citation key.
    pub source_id: String,
    /// The name of the source.
    pub source_name: String,
    /// The kind of id that `source_id` is.
    pub source_id_type: String,
    /// Where it is found in the source.
    pub source_path: String,
    /// What the store is.
    pub store_info: String,
    /// Where the store is.
    pub store_url: String,
    pub created: ToTimestamp,
    pub updated: ToTimestamp,
    /// The object itself.
    pub json: serde_json::Value,
    pub card: ToCard,
    /// The rules by which the card is filled.
    pub card_map: String,
}

impl View for TextualObject {
    type V = TextualObjectView;

    open spec fn view(&self) -> TextualObjectView {
        TextualObjectView {
            ticket_id: self.ticket_id@,
            ticket_minimal: self.ticket_minimal@,
            source_id: self.source_id@,
            source_name: self.source_name@,
            source_id_type: self.source_id_type@,
            source_path: self.source_path@,
            store_info: self.store_info@,
            store_url: self.store_url@,
            created: self.created@,
            updated: self.updated@,
            json: json_fields(self.json),
            card_map: self.card_map@,
        }
    }
}

impl Clone for TextualObject {
    fn clone(&self) -> (copy: Self)
        ensures
            copy@ == self@,
    {
        TextualObject {
            id: self.id,
            ticket_id: self.ticket_id.clone(),
            ticket_minimal: self.ticket_minimal.clone(),
            source_id: self.source_id.clone(),
            source_name: self.source_name.clone(),
            source_id_type: self.source_id_type.clone(),
            source_path: self.source_path.clone(),
            store_info: self.store_info.clone(),
            store_url: self.store_url.clone(),
            created: self.created,
            updated: self.updated,
            json: json_clone(&self.json),
            card: self.card.clone(),
            card_map: self.card_map.clone(),
        }
    }
}

/// The map that holds the entries, each inserted in its turn.
pub open spec fn inserted(entries: Seq<Entry>) -> Seq<Entry>
    decreases entries.len(),
{
    if entries.len() == 0 {
        Seq::<Entry>::empty()
    } else {
        with_entry(inserted(entries.drop_last()), entries.last().0, entries.last().1)
    }
}

/// The ticket of a textual object: its ticket id, the members of its JSON
/// object as values, the whole second of its last change, and both notes on
/// its store. An object whose JSON value is no object has no values.
pub open spec fn ticket_of(object: TextualObjectView) -> TicketView {
    TicketView {
        id: Seq::<char>::empty(),
        ticket_id: object.ticket_id,
        values: match object.json {
            Some(members) => inserted(members),
            None => Seq::<Entry>::empty(),
        },
        updated: TimestampView { secs: object.updated.secs, nanos: 0 },
        store_url: Some(object.store_url),
        store_info: Some(object.store_info),
        marker: MarkerView::standard(),
        position: None,
    }
}

impl TextualObject {
    /// A new textual object with the given id: a fresh ticket id and its
    /// minimal marker, the present time, and nothing else.
    pub fn default_with_uuid(uuid: Uuid) -> (object: Self)
        ensures
            object.id == uuid,
            is_fresh_id(object@.ticket_id, 5),
            object@.ticket_minimal == minimal_text(object@.ticket_id, MarkerView::standard()),
            object@.source_id.len() == 0 && object@.source_name.len() == 0
                && object@.source_id_type.len() == 0 && object@.source_path.len() == 0,
            object@.store_info.len() == 0 && object@.store_url.len() == 0,
            object@.json is None,
            object@.card_map.len() == 0,
    {
        let ticket_id = generate_id();
        let ticket_minimal = print_minimal_ticket(ticket_id.as_str(), None);
        TextualObject {
            id: uuid,
            ticket_id,
            ticket_minimal,
            source_id: String::new(),
            source_name: String::new(),
            source_id_type: String::new(),
            source_path: String::new(),
            store_info: String::new(),
            store_url: String::new(),
            created: ToTimestamp::now(),
            updated: ToTimestamp::now(),
            json: json_null(),
            card: ToCard::default(),
            card_map: String::new(),
        }
    }

    /// The ticket of the object.
    pub fn to_ticket(&self) -> (ticket: ToTicket)
        ensures
            ticket@ == ticket_of(self@),
    {
        let mut ticket = ToTicket::blank(self.ticket_id.clone(), self.updated.whole_seconds());
        match json_object_entries(&self.json) {
            Some(members) => {
                let ghost all = pair_views(members@);
                let mut i: usize = 0;
                assert(all.subrange(0, 0) =~= Seq::<Entry>::empty());
                while i < members.len()
                    invariant
                        i <= members.len(),
                        all == pair_views(members@),
                        ticket@ == (TicketView {
                            values: inserted(all.subrange(0, i as int)),
                            ..TicketView::blank(self@.ticket_id, TimestampView { secs: self@.updated.secs, nanos: 0 })
                        }),
                    decreases members.len() - i,
                {
                    proof {
                        assert(all.subrange(0, i + 1).drop_last() =~= all.subrange(0, i as int));
                        assert(all.subrange(0, i + 1).last() == all[i as int]);
                    }
                    values_insert(&mut ticket.values, members[i].0.clone(), members[i].1.clone());
                    i += 1;
                }
                assert(all.subrange(0, members.len() as int) =~= all);
            },
            None => {},
        }
        ticket.to_store_url = Some(self.store_url.clone());
        ticket.to_store_info = Some(self.store_info.clone());
        ticket
    }
}

impl Default for TextualObject {
    /// A new textual object with a random id.
    fn default() -> (object: Self)
        ensures
            is_fresh_id(object@.ticket_id, 5),
            object@.ticket_minimal == minimal_text(object@.ticket_id, MarkerView::standard()),
            object@.json is None,
    {
        TextualObject::default_with_uuid(new_uuid())
    }
}

impl FromSpecImpl<TextualObject> for ToTicket {
    open spec fn obeys_from_spec() -> bool {
        false
    }

    open spec fn from_spec(textual_object: TextualObject) -> ToTicket {
        arbitrary()
    }
}

impl From<TextualObject> for ToTicket {
    fn from(textual_object: TextualObject) -> (ticket: ToTicket)
        ensures
            ticket@ == ticket_of(textual_object@),
    {
        textual_object.to_ticket()
    }
}

} // verus!
