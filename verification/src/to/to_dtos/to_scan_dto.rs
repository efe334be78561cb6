//! The request to find the textual objects that a text points to.

use crate::error::error_message::ToErrorMessage;
use crate::error::ToErrors;
use crate::to::to_dtos::to_find_dto::{error_of, judged};
use crate::to::to_struct::TextualObject;
use crate::utils::check_if_file_exists::check_if_file_exists;
use vstd::prelude::*;

verus! {

/// A request to scan a text for tickets and to find their textual objects
/// in a store.
#[derive(Debug)]
pub struct ToScanRequestDto {
    pub store_url: String,
    /// The text to scan.
    pub text: String,
}

/// A request to scan as plain values.
pub struct ScanRequestView {
    pub store_url: Seq<char>,
    pub text: Seq<char>,
}

impl View for ToScanRequestDto {
    type V = ScanRequestView;

    open spec fn view(&self) -> ScanRequestView {
        ScanRequestView { store_url: self.store_url@, text: self.text@ }
    }
}

/// What is wrong with a request to scan, where the store is there or is not:
/// it holds no text, or its store is not there.
pub open spec fn scan_request_fault(request: ScanRequestView, store_exists: bool) -> Option<
    ToErrorMessage,
> {
    if request.text.len() == 0 {
        Some(ToErrorMessage::ScanRequestDtoNoText)
    } else if !store_exists {
        Some(ToErrorMessage::FindOrScanRequestDtoStoreUrlDoesNotExist)
    } else {
        None
    }
}

impl ToScanRequestDto {
    /// Whether the request can be served, where it is known whether its
    /// store is there.
    pub fn validate_with(&self, store_exists: bool) -> (verdict: Result<(), ToErrors>)
        ensures
            judged(verdict, scan_request_fault(self@, store_exists)),
    {
        if self.text.as_str().unicode_len() == 0 {
            return Err(error_of(ToErrorMessage::ScanRequestDtoNoText));
        }
        if !store_exists {
            return Err(error_of(ToErrorMessage::FindOrScanRequestDtoStoreUrlDoesNotExist));
        }
        Ok(())
    }

    /// Whether the request can be served: it holds a text, and its store is
    /// found on disk.
    pub fn validate(&self) -> (verdict: Result<(), ToErrors>)
        ensures
            exists|store_exists: bool| #[trigger]
                judged(verdict, scan_request_fault(self@, store_exists)),
    {
        let store_exists = self.text.as_str().unicode_len() == 0 || check_if_file_exists(
            self.store_url.as_str(),
        );
        let verdict = self.validate_with(store_exists);
        assert(judged(verdict, scan_request_fault(self@, store_exists)));
        verdict
    }
}

/// What is answered to a request to scan.
pub struct ToScanResultDto {
    pub store_url: String,
    pub found_tos: Vec<TextualObject>,
    pub found_tos_count: usize,
    pub missing_tos_ids: Vec<String>,
    pub missing_tos_count: usize,
    pub cleaned_text: String,
}

} // verus!
