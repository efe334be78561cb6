//! The request to add textual objects, and the receipt for it.

use crate::error::{
    ErrorMessageView, ErrorsView, PayloadView, TextualObjectErrorMessage, ToErrorPayload, ToErrors,
};
use crate::to::to_struct::{json_clone, json_fields, json_null, new_uuid, TextualObject};
use crate::to_card::to_card_convert_rule::{rule_views, RuleView, TextualObjectCardConvertRule};
use crate::to_card::to_card_struct::{is_field_name, ToCard};
use crate::to_ticket::to_ticket_marker::MarkerView;
use crate::to_ticket::to_ticket_struct::{clone_option, option_view};
use crate::to_ticket::to_ticket_time::ToTimestamp;
use crate::to_ticket::to_ticket_utils::print_minimal_ticket;
use crate::to_ticket::to_ticket_values::Entry;
use crate::to_ticket::to_ticket_write::minimal_text;
use crate::utils::id_generator::{generate_id, is_fresh_id};
use indexmap::IndexMap;
use vstd::prelude::*;
use vstd::std_specs::convert::FromSpecImpl;

verus! {

/// One textual object to add.
pub struct TextualObjectAddDto {
    /// Its id in the source.
    pub source_id: Option<String>,
    /// The kind of id that `source_id` is.
    pub source_id_type: Option<String>,
    /// Where it is found in the source.
    pub source_path: Option<String>,
    /// The name of the source.
    pub source_name: String,
    /// The object itself.
    pub json: serde_json::Value,
}

/// An object to add as plain values.
pub struct AddDtoView {
    pub source_id: Option<Seq<char>>,
    pub source_id_type: Option<Seq<char>>,
    pub source_path: Option<Seq<char>>,
    pub source_name: Seq<char>,
    pub json: Option<Seq<Entry>>,
}

impl View for TextualObjectAddDto {
    type V = AddDtoView;

    open spec fn view(&self) -> AddDtoView {
        AddDtoView {
            source_id: option_view(self.source_id),
            source_id_type: option_view(self.source_id_type),
            source_path: option_view(self.source_path),
            source_name: self.source_name@,
            json: json_fields(self.json),
        }
    }
}

impl Clone for TextualObjectAddDto {
    fn clone(&self) -> (copy: Self)
        ensures
            copy@ == self@,
    {
        TextualObjectAddDto {
            source_id: clone_option(&self.source_id),
            source_id_type: clone_option(&self.source_id_type),
            source_path: clone_option(&self.source_path),
            source_name: self.source_name.clone(),
            json: json_clone(&self.json),
        }
    }
}

impl Default for TextualObjectAddDto {
    fn default() -> (dto: Self)
        ensures
            dto@ == (AddDtoView {
                source_id: None,
                source_id_type: None,
                source_path: None,
                source_name: Seq::<char>::empty(),
                json: None,
            }),
    {
        TextualObjectAddDto {
            source_id: None,
            source_id_type: None,
            source_path: None,
            source_name: String::new(),
            json: json_null(),
        }
    }
}

/// The text of an optional string, empty where there is none.
pub open spec fn or_empty(text: Option<Seq<char>>) -> Seq<char> {
    match text {
        Some(text) => text,
        None => Seq::<char>::empty(),
    }
}

/// The string, or an empty one where there is none.
fn unwrap_or_empty(text: Option<String>) -> (out: String)
    ensures
        out@ == or_empty(option_view(text)),
{
    match text {
        Some(text) => text,
        None => String::new(),
    }
}

impl FromSpecImpl<TextualObjectAddDto> for TextualObject {
    open spec fn obeys_from_spec() -> bool {
        false
    }

    open spec fn from_spec(dto: TextualObjectAddDto) -> TextualObject {
        arbitrary()
    }
}

impl From<TextualObjectAddDto> for TextualObject {
    /// The textual object for an object to add, ready to be stored: what the
    /// request says of the source, a random id, a fresh ticket id with its
    /// minimal marker, and the present time. Of the store nothing is known
    /// yet.
    fn from(dto: TextualObjectAddDto) -> (object: TextualObject)
        ensures
            is_fresh_id(object@.ticket_id, 5),
            object@.ticket_minimal == minimal_text(object@.ticket_id, MarkerView::standard()),
            object@.source_id == or_empty(dto@.source_id),
            object@.source_id_type == or_empty(dto@.source_id_type),
            object@.source_path == or_empty(dto@.source_path),
            object@.source_name == dto@.source_name,
            object@.store_url.len() == 0,
            object@.store_info.len() == 0,
            object@.card_map.len() == 0,
            object@.json == dto@.json,
    {
        let ticket_id = generate_id();
        let ticket_minimal = print_minimal_ticket(ticket_id.as_str(), None);
        let mut to = TextualObject {
            id: new_uuid(),
            source_id: unwrap_or_empty(dto.source_id),
            source_id_type: unwrap_or_empty(dto.source_id_type),
            source_path: unwrap_or_empty(dto.source_path),
            source_name: dto.source_name,
            store_url: String::new(),
            store_info: String::new(),
            ticket_id,
            ticket_minimal,
            created: ToTimestamp::now(),
            updated: ToTimestamp::now(),
            card_map: String::new(),
            card: ToCard::default(),
            json: dto.json,
        };
        to.update_minimal_ticket()
    }
}

/// A request to add textual objects to a store.
pub struct TextualObjectAddManyDto {
    /// The objects to add.
    pub tos: Vec<TextualObjectAddDto>,
    /// Whether an object that is in the store already is replaced.
    pub overwrite: bool,
    pub store_info: Option<String>,
    pub store_dir: String,
    pub store_filename: Option<String>,
    /// The rules by which the cards are filled.
    pub card_map_rules: Vec<TextualObjectCardConvertRule>,
}

/// A request to add as plain values.
pub struct AddManyView {
    pub tos: Seq<AddDtoView>,
    pub overwrite: bool,
    pub store_info: Option<Seq<char>>,
    pub store_dir: Seq<char>,
    pub store_filename: Option<Seq<char>>,
    pub card_map_rules: Seq<RuleView>,
}

impl View for TextualObjectAddManyDto {
    type V = AddManyView;

    open spec fn view(&self) -> AddManyView {
        AddManyView {
            tos: Seq::new(self.tos@.len(), |i: int| self.tos@[i]@),
            overwrite: self.overwrite,
            store_info: option_view(self.store_info),
            store_dir: self.store_dir@,
            store_filename: option_view(self.store_filename),
            card_map_rules: rule_views(self.card_map_rules@),
        }
    }
}

impl Default for TextualObjectAddManyDto {
    fn default() -> (dto: Self)
        ensures
            dto@ == (AddManyView {
                tos: Seq::<AddDtoView>::empty(),
                overwrite: false,
                store_info: None,
                store_dir: Seq::<char>::empty(),
                store_filename: None,
                card_map_rules: Seq::<RuleView>::empty(),
            }),
    {
        let dto = TextualObjectAddManyDto {
            tos: Vec::new(),
            overwrite: false,
            store_info: None,
            store_dir: String::new(),
            store_filename: None,
            card_map_rules: Vec::new(),
        };
        assert(dto@.tos =~= Seq::<AddDtoView>::empty());
        assert(dto@.card_map_rules =~= Seq::<RuleView>::empty());
        dto
    }
}

/// The rules that fill no field of a card, in order.
pub open spec fn invalid_rules(rules: Seq<RuleView>) -> Seq<RuleView>
    decreases rules.len(),
{
    if rules.len() == 0 {
        Seq::<RuleView>::empty()
    } else {
        let before = invalid_rules(rules.drop_last());
        if is_field_name(rules.last().card_field) {
            before
        } else {
            before.push(rules.last())
        }
    }
}

/// What is wrong with a request to add: it holds no object, or some rule
/// fills no field of a card. The second error hands back the rules at fault.
pub open spec fn add_request_fault(request: AddManyView) -> Option<ErrorsView> {
    if request.tos.len() == 0 {
        Some(
            ErrorsView::AddManyRequestError(
                ErrorMessageView {
                    message: "No textual objects to add"@,
                    suggestion: "Add objects in the \"tos\" field of your request."@,
                    ..ErrorMessageView::blank()
                },
            ),
        )
    } else if invalid_rules(request.card_map_rules).len() > 0 {
        Some(
            ErrorsView::AddManyRequestError(
                ErrorMessageView {
                    message: "Card map rules are not valid"@,
                    suggestion: "See card fields specifications and provide correct Textual Object Card fields"@,
                    payload_for_user: PayloadView::InvalidCardMapRules {
                        all_valid: false,
                        rules: invalid_rules(request.card_map_rules),
                    },
                    ..ErrorMessageView::blank()
                },
            ),
        )
    } else {
        None
    }
}

impl TextualObjectAddManyDto {
    /// Whether the request can be served.
    pub fn is_valid(&self) -> (verdict: Result<(), ToErrors>)
        ensures
            match verdict {
                Ok(_) => add_request_fault(self@) is None,
                Err(error) => add_request_fault(self@) == Some(error@),
            },
    {
        let mut errors = TextualObjectErrorMessage::default();
        if self.is_empty() {
            errors.message = "No textual objects to add".to_owned();
            errors.suggestion = "Add objects in the \"tos\" field of your request.".to_owned();
            return Err(ToErrors::AddManyRequestError(errors));
        }
        if !self.are_card_map_rules_valid() {
            let invalid_fields = self.are_card_map_rules_valid_return_invalid();
            errors.message = "Card map rules are not valid".to_owned();
            errors.suggestion =
            "See card fields specifications and provide correct Textual Object Card fields".to_owned();
            errors.payload_for_user = ToErrorPayload::InvalidCardMapRules {
                all_valid: invalid_fields.0,
                rules: invalid_fields.1,
            };
            return Err(ToErrors::AddManyRequestError(errors));
        }
        Ok(())
    }

    /// Whether the request holds no object.
    pub fn is_empty(&self) -> (empty: bool)
        ensures
            empty == (self@.tos.len() == 0),
    {
        self.tos.len() == 0
    }

    /// Whether every rule fills a field of a card.
    pub fn are_card_map_rules_valid(&self) -> (valid: bool)
        ensures
            valid == (invalid_rules(self@.card_map_rules).len() == 0),
    {
        self.are_card_map_rules_valid_return_invalid().0
    }

    /// Whether every rule fills a field of a card, and the rules that fill
    /// none.
    pub fn are_card_map_rules_valid_return_invalid(&self) -> (found: (
        bool,
        Vec<TextualObjectCardConvertRule>,
    ))
        ensures
            rule_views(found.1@) == invalid_rules(self@.card_map_rules),
            found.0 == (found.1@.len() == 0),
    {
        let mut invalid: Vec<TextualObjectCardConvertRule> = Vec::new();
        let ghost all = rule_views(self.card_map_rules@);
        let mut i: usize = 0;
        assert(rule_views(invalid@) =~= invalid_rules(all.subrange(0, 0)));
        while i < self.card_map_rules.len()
            invariant
                i <= self.card_map_rules.len(),
                all == rule_views(self.card_map_rules@),
                rule_views(invalid@) == invalid_rules(all.subrange(0, i as int)),
            decreases self.card_map_rules.len() - i,
        {
            let rule = &self.card_map_rules[i];
            let ghost before = rule_views(invalid@);
            proof {
                assert(all.subrange(0, i + 1).drop_last() =~= all.subrange(0, i as int));
                assert(all.subrange(0, i + 1).last() == rule@);
            }
            if !rule.is_card_field_valid() {
                invalid.push(rule.clone());
                assert(rule_views(invalid@) =~= before.push(rule@));
            }
            i += 1;
        }
        assert(all.subrange(0, self.card_map_rules.len() as int) =~= all);
        (invalid.len() == 0, invalid)
    }
}

/// What is answered to a request to add: the objects that were stored, by
/// their ticket ids, and the store that holds them.
pub struct TextualObjectStoredReceipt {
    pub tos_stored: IndexMap<String, TextualObject>,
    pub store_info: String,
    pub store_url: String,
    pub stored: ToTimestamp,
    pub total_tos_stored: usize,
}

impl FromSpecImpl<TextualObjectAddManyDto> for TextualObjectStoredReceipt {
    open spec fn obeys_from_spec() -> bool {
        false
    }

    open spec fn from_spec(add_tos_dto: TextualObjectAddManyDto) -> TextualObjectStoredReceipt {
        arbitrary()
    }
}

impl From<TextualObjectAddManyDto> for TextualObjectStoredReceipt {
    /// The receipt for a request before anything is stored: the store as
    /// the request names it, and the present time.
    fn from(add_tos_dto: TextualObjectAddManyDto) -> (receipt: TextualObjectStoredReceipt)
        ensures
            receipt.store_url@ == add_tos_dto@.store_dir,
            receipt.store_info@ == or_empty(add_tos_dto@.store_info),
            receipt.total_tos_stored == 0,
    {
        TextualObjectStoredReceipt {
            tos_stored: IndexMap::new(),
            store_info: unwrap_or_empty(add_tos_dto.store_info),
            store_url: add_tos_dto.store_dir,
            stored: ToTimestamp::now(),
            total_tos_stored: 0,
        }
    }
}

} // verus!
