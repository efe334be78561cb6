//! The first form of the request to find textual objects.

use crate::to_card::to_card_convert_rule::string_views;
use vstd::prelude::*;

verus! {

/// A request to find the textual objects of some tickets in a store.
#[derive(Debug)]
pub struct TextualObjectFindRequestDto {
    pub store_url: String,
    pub ticket_ids: Vec<String>,
}

/// A request to find as plain values.
pub struct FindRequestView {
    pub store_url: Seq<char>,
    pub ticket_ids: Seq<Seq<char>>,
}

impl View for TextualObjectFindRequestDto {
    type V = FindRequestView;

    open spec fn view(&self) -> FindRequestView {
        FindRequestView { store_url: self.store_url@, ticket_ids: string_views(self.ticket_ids@) }
    }
}

} // verus!
