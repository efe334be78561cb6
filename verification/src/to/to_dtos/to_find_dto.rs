//! The request to find textual objects by their ticket ids.

use crate::error::error_message::{message_text, ToErrorMessage};
use crate::error::{ErrorMessageView, ErrorsView, TextualObjectErrorMessage, ToErrors};
use crate::to::to_dto::FindRequestView;
use crate::to::to_struct::TextualObject;
use crate::to_card::to_card_convert_rule::string_views;
use crate::utils::check_if_file_exists::check_if_file_exists;
use vstd::prelude::*;

verus! {

/// A request to find the textual objects of some tickets in a store.
#[derive(Debug)]
pub struct ToFindRequestDto {
    pub store_url: String,
    pub ticket_ids: Vec<String>,
}

impl View for ToFindRequestDto {
    type V = FindRequestView;

    open spec fn view(&self) -> FindRequestView {
        FindRequestView { store_url: self.store_url@, ticket_ids: string_views(self.ticket_ids@) }
    }
}

/// The error of a request that cannot be served for the reason `message`.
pub open spec fn request_error(message: ToErrorMessage) -> ErrorsView {
    ErrorsView::FindRequestError(
        ErrorMessageView { message: message_text(message), ..ErrorMessageView::blank() },
    )
}

/// What is wrong with a request to find, where the store is there or is not:
/// it names no ticket id, or its store is not there.
pub open spec fn find_request_fault(request: FindRequestView, store_exists: bool) -> Option<
    ToErrorMessage,
> {
    if request.ticket_ids.len() == 0 {
        Some(ToErrorMessage::FindRequestDtoNoTicketIds)
    } else if !store_exists {
        Some(ToErrorMessage::FindOrScanRequestDtoStoreUrlDoesNotExist)
    } else {
        None
    }
}

/// `verdict` says of a request what `fault` says.
pub open spec fn judged(verdict: Result<(), ToErrors>, fault: Option<ToErrorMessage>) -> bool {
    match verdict {
        Ok(_) => fault is None,
        Err(error) => fault is Some && error@ == request_error(fault->0),
    }
}

/// The error of a request that cannot be served for the reason `message`.
pub(crate) fn error_of(message: ToErrorMessage) -> (error: ToErrors)
    ensures
        error@ == request_error(message),
{
    let mut error_message = TextualObjectErrorMessage::default();
    error_message.message = message.to_string();
    ToErrors::FindRequestError(error_message)
}

impl ToFindRequestDto {
    /// Whether the request can be served, where it is known whether its
    /// store is there.
    pub fn validate_with(&self, store_exists: bool) -> (verdict: Result<(), ToErrors>)
        ensures
            judged(verdict, find_request_fault(self@, store_exists)),
    {
        if self.ticket_ids.len() == 0 {
            return Err(error_of(ToErrorMessage::FindRequestDtoNoTicketIds));
        }
        if !store_exists {
            return Err(error_of(ToErrorMessage::FindOrScanRequestDtoStoreUrlDoesNotExist));
        }
        Ok(())
    }

    /// Whether the request can be served: it names a ticket id, and its
    /// store is found on disk.
    pub fn validate(&self) -> (verdict: Result<(), ToErrors>)
        ensures
            exists|store_exists: bool| #[trigger]
                judged(verdict, find_request_fault(self@, store_exists)),
    {
        let store_exists = self.ticket_ids.len() == 0 || check_if_file_exists(
            self.store_url.as_str(),
        );
        let verdict = self.validate_with(store_exists);
        assert(judged(verdict, find_request_fault(self@, store_exists)));
        verdict
    }
}

/// What is answered to a request to find.
pub struct ToFindResultDto {
    pub store_url: String,
    pub found_tos: Vec<TextualObject>,
    pub found_tos_count: usize,
    pub missing_tos_ids: Vec<String>,
    pub missing_tos_count: usize,
}

} // verus!
