//! The fields of a card.

use crate::text::{chars_of, same_text};
use crate::to::to_struct::new_uuid;
use crate::to_ticket::to_ticket_time::ToTimestamp;
use indexmap::IndexMap;
use uuid::Uuid;
use vstd::prelude::*;

verus! {

/// Someone who made a textual object or wrote about it.
#[derive(Clone, Debug)]
pub struct Person {
    pub id: Uuid,
    pub name: String,
    pub description: String,
    pub extra: Vec<String>,
}

/// What a person wrote about a textual object.
#[derive(Clone, Debug)]
pub struct Comment {
    pub id: Uuid,
    pub person_id: Uuid,
    pub text: String,
    pub extra: Vec<String>,
    pub created: ToTimestamp,
}

/// The card of a textual object: what is shown of it.
#[derive(Clone, Debug)]
pub struct ToCard {
    pub id: Uuid,
    pub store_id: Uuid,
    pub store_ticket_id: String,
    pub store_url: String,
    pub store_info: String,
    pub title: String,
    pub description: String,
    pub creators: IndexMap<usize, Person>,
    pub comments: Vec<Comment>,
    pub extra: Vec<String>,
}

impl Default for ToCard {
    /// A card with fresh ids and nothing on it.
    fn default() -> (card: Self)
        ensures
            card.store_ticket_id@ == "store_ticket_id_value"@,
            card.store_url@ == "store_url_value"@,
            card.store_info@ == "store_info_value"@,
            card.title@.len() == 0,
            card.description@.len() == 0,
            card.comments@.len() == 0,
            card.extra@.len() == 0,
    {
        ToCard {
            id: new_uuid(),
            store_id: new_uuid(),
            store_ticket_id: "store_ticket_id_value".to_owned(),
            store_url: "store_url_value".to_owned(),
            store_info: "store_info_value".to_owned(),
            title: String::new(),
            description: String::new(),
            creators: IndexMap::new(),
            comments: Vec::new(),
            extra: Vec::new(),
        }
    }
}

/// The fields that a card has.
#[derive(Debug, Clone, Copy, PartialEq, Eq, Structural)]
pub enum ToCardField {
    Id,
    StoreId,
    StoreTicketId,
    StoreUrl,
    StoreInfo,
    Title,
    Description,
    Creators,
    Comments,
    Extra,
}

/// The name of a field.
pub open spec fn field_name(field: ToCardField) -> Seq<char> {
    match field {
        ToCardField::Id => "id"@,
        ToCardField::StoreId => "store_id"@,
        ToCardField::StoreTicketId => "store_ticket_id"@,
        ToCardField::StoreUrl => "store_url"@,
        ToCardField::StoreInfo => "store_info"@,
        ToCardField::Title => "title"@,
        ToCardField::Description => "description"@,
        ToCardField::Creators => "creators"@,
        ToCardField::Comments => "comments"@,
        ToCardField::Extra => "extra"@,
    }
}

/// All fields, in the order in which they are declared.
pub open spec fn all_fields() -> Seq<ToCardField> {
    seq![
        ToCardField::Id,
        ToCardField::StoreId,
        ToCardField::StoreTicketId,
        ToCardField::StoreUrl,
        ToCardField::StoreInfo,
        ToCardField::Title,
        ToCardField::Description,
        ToCardField::Creators,
        ToCardField::Comments,
        ToCardField::Extra,
    ]
}

/// `name` is the name of a field.
pub open spec fn is_field_name(name: Seq<char>) -> bool {
    exists|field: ToCardField| #[trigger] field_name(field) == name
}

impl ToCardField {
    /// The name of the field.
    pub fn to_string(&self) -> (name: String)
        ensures
            name@ == field_name(*self),
    {
        match self {
            ToCardField::Id => "id".to_owned(),
            ToCardField::StoreId => "store_id".to_owned(),
            ToCardField::StoreTicketId => "store_ticket_id".to_owned(),
            ToCardField::StoreUrl => "store_url".to_owned(),
            ToCardField::StoreInfo => "store_info".to_owned(),
            ToCardField::Title => "title".to_owned(),
            ToCardField::Description => "description".to_owned(),
            ToCardField::Creators => "creators".to_owned(),
            ToCardField::Comments => "comments".to_owned(),
            ToCardField::Extra => "extra".to_owned(),
        }
    }

    /// All fields, in the order in which they are declared.
    pub fn iter() -> (fields: Vec<ToCardField>)
        ensures
            fields@ == all_fields(),
            forall|field: ToCardField| fields@.contains(field),
    {
        let mut fields: Vec<ToCardField> = Vec::new();
        fields.push(ToCardField::Id);
        fields.push(ToCardField::StoreId);
        fields.push(ToCardField::StoreTicketId);
        fields.push(ToCardField::StoreUrl);
        fields.push(ToCardField::StoreInfo);
        fields.push(ToCardField::Title);
        fields.push(ToCardField::Description);
        fields.push(ToCardField::Creators);
        fields.push(ToCardField::Comments);
        fields.push(ToCardField::Extra);
        assert(fields@ =~= all_fields());
        assert forall|field: ToCardField| fields@.contains(field) by {
            match field {
                ToCardField::Id => assert(fields@[0] == field),
                ToCardField::StoreId => assert(fields@[1] == field),
                ToCardField::StoreTicketId => assert(fields@[2] == field),
                ToCardField::StoreUrl => assert(fields@[3] == field),
                ToCardField::StoreInfo => assert(fields@[4] == field),
                ToCardField::Title => assert(fields@[5] == field),
                ToCardField::Description => assert(fields@[6] == field),
                ToCardField::Creators => assert(fields@[7] == field),
                ToCardField::Comments => assert(fields@[8] == field),
                ToCardField::Extra => assert(fields@[9] == field),
            }
        }
        fields
    }

    /// Whether `name` is the name of this field.
    pub fn has_name(&self, name: &[char]) -> (same: bool)
        ensures
            same == (field_name(*self) == name@),
    {
        let own = self.to_string();
        same_text(chars_of(own.as_str()).as_slice(), name)
    }
}

} // verus!
