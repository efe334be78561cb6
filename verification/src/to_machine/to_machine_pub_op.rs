//! Sorting what a store answered, and stamping what goes into it.

use crate::to::to_dtos::to_find_dto::ToFindResultDto;
use crate::to::to_dtos::to_scan_dto::ToScanResultDto;
use crate::to::to_struct::{TextualObject, TextualObjectView};
use crate::to_card::to_card_convert_rule::string_views;
use crate::to_ticket::to_ticket_struct::ToTicket;
use vstd::prelude::*;

verus! {

/// The views of the textual objects of a vector.
pub open spec fn object_views(objects: Seq<TextualObject>) -> Seq<TextualObjectView> {
    Seq::new(objects.len(), |i: int| objects[i]@)
}

/// The objects that were found among the answers of a store, in order.
pub open spec fn found_among(answers: Seq<Option<TextualObject>>) -> Seq<TextualObjectView>
    decreases answers.len(),
{
    if answers.len() == 0 {
        Seq::<TextualObjectView>::empty()
    } else {
        let before = found_among(answers.drop_last());
        match answers.last() {
            Some(object) => before.push(object@),
            None => before,
        }
    }
}

/// The ids for which a store had no answer, in order. `ids` and `answers`
/// go together place by place.
pub open spec fn missing_among(ids: Seq<Seq<char>>, answers: Seq<Option<TextualObject>>) -> Seq<
    Seq<char>,
>
    decreases answers.len(),
{
    if answers.len() == 0 || ids.len() != answers.len() {
        Seq::<Seq<char>>::empty()
    } else {
        let before = missing_among(ids.drop_last(), answers.drop_last());
        match answers.last() {
            Some(_) => before,
            None => before.push(ids.last()),
        }
    }
}

/// The ticket ids of the tickets of a vector.
pub open spec fn ticket_ids_of(tickets: Seq<ToTicket>) -> Seq<Seq<char>> {
    Seq::new(tickets.len(), |i: int| tickets[i]@.ticket_id)
}

/// Sorts the answers of a store to a list of ticket ids: the objects that
/// were found, and the ids of those that were not.
pub fn sort_answers(ticket_ids: &Vec<String>, answers: Vec<Option<TextualObject>>) -> (sorted: (
    Vec<TextualObject>,
    Vec<String>,
))
    requires
        ticket_ids@.len() == answers@.len(),
    ensures
        object_views(sorted.0@) == found_among(answers@),
        string_views(sorted.1@) == missing_among(string_views(ticket_ids@), answers@),
{
    let mut found_tos: Vec<TextualObject> = Vec::new();
    let mut missing_to_ids: Vec<String> = Vec::new();
    let ghost ids = string_views(ticket_ids@);
    let mut i: usize = 0;
    assert(object_views(found_tos@) =~= found_among(answers@.subrange(0, 0)));
    assert(string_views(missing_to_ids@) =~= missing_among(
        ids.subrange(0, 0),
        answers@.subrange(0, 0),
    ));
    while i < answers.len()
        invariant
            i <= answers.len() == ticket_ids.len(),
            ids == string_views(ticket_ids@),
            object_views(found_tos@) == found_among(answers@.subrange(0, i as int)),
            string_views(missing_to_ids@) == missing_among(
                ids.subrange(0, i as int),
                answers@.subrange(0, i as int),
            ),
        decreases answers.len() - i,
    {
        let ghost found_before = object_views(found_tos@);
        let ghost missing_before = string_views(missing_to_ids@);
        proof {
            assert(answers@.subrange(0, i + 1).drop_last() =~= answers@.subrange(0, i as int));
            assert(ids.subrange(0, i + 1).drop_last() =~= ids.subrange(0, i as int));
        }
        match &answers[i] {
            Some(object) => {
                found_tos.push(object.clone());
                assert(object_views(found_tos@) =~= found_before.push(object@));
            },
            None => {
                missing_to_ids.push(ticket_ids[i].clone());
                assert(string_views(missing_to_ids@) =~= missing_before.push(ids[i as int]));
            },
        }
        i += 1;
    }
    proof {
        assert(answers@.subrange(0, answers@.len() as int) =~= answers@);
        assert(ids.subrange(0, answers@.len() as int) =~= ids);
    }
    (found_tos, missing_to_ids)
}

/// The answer to a request to find, from the sorted answers of the store.
pub fn find_result(found_tos: Vec<TextualObject>, missing_tos_ids: Vec<String>, store_url: &str)
    -> (result: ToFindResultDto)
    ensures
        result.found_tos == found_tos,
        result.missing_tos_ids == missing_tos_ids,
        result.found_tos_count == found_tos@.len(),
        result.missing_tos_count == missing_tos_ids@.len(),
        result.store_url@ == store_url@,
{
    ToFindResultDto {
        found_tos_count: found_tos.len(),
        missing_tos_count: missing_tos_ids.len(),
        found_tos,
        missing_tos_ids,
        store_url: store_url.to_owned(),
    }
}

/// The answer to a request to scan, from the sorted answers of the store.
/// The text is handed back as it was asked.
pub fn scan_result(
    found_tos: Vec<TextualObject>,
    missing_tos_ids: Vec<String>,
    store_url: &str,
    text: &str,
) -> (result: ToScanResultDto)
    ensures
        result.found_tos == found_tos,
        result.missing_tos_ids == missing_tos_ids,
        result.found_tos_count == found_tos@.len(),
        result.missing_tos_count == missing_tos_ids@.len(),
        result.store_url@ == store_url@,
        result.cleaned_text@ == text@,
{
    ToScanResultDto {
        found_tos_count: found_tos.len(),
        missing_tos_count: missing_tos_ids.len(),
        found_tos,
        missing_tos_ids,
        store_url: store_url.to_owned(),
        cleaned_text: text.to_owned(),
    }
}

/// The ticket ids of the tickets, in order.
pub fn ticket_ids(tickets: &Vec<ToTicket>) -> (ids: Vec<String>)
    ensures
        string_views(ids@) == ticket_ids_of(tickets@),
{
    let mut ids: Vec<String> = Vec::new();
    let mut i: usize = 0;
    while i < tickets.len()
        invariant
            i <= tickets.len(),
            ids@.len() == i,
            forall|j: int| 0 <= j < i ==> ids@[j]@ == tickets@[j]@.ticket_id,
        decreases tickets.len() - i,
    {
        ids.push(tickets[i].ticket_id.clone());
        i += 1;
    }
    assert(string_views(ids@) =~= ticket_ids_of(tickets@));
    ids
}

/// Stamps a textual object that is about to be stored: it takes the ticket
/// id that the store found free, and the description and the place of the
/// store.
pub fn stamp_for_store(
    object: &mut TextualObject,
    unique_ticket_id: &str,
    store_info: &str,
    store_url: &str,
)
    ensures
        final(object)@ == (TextualObjectView {
            ticket_id: unique_ticket_id@,
            store_info: store_info@,
            store_url: store_url@,
            ..old(object)@
        }),
{
    object.ticket_id = unique_ticket_id.to_owned();
    object.store_info = store_info.to_owned();
    object.store_url = store_url.to_owned();
}

} // verus!
