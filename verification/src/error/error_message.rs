//! The fixed messages of the request checks.

use crate::text::{chars_of, same_text};
use vstd::prelude::*;

verus! {

/// The messages.
#[derive(Debug, Clone, Copy, PartialEq, Eq, Structural)]
pub enum ToErrorMessage {
    /// A request to find names no ticket id.
    FindRequestDtoNoTicketIds,
    /// The store that a request names is not there.
    FindOrScanRequestDtoStoreUrlDoesNotExist,
    /// A request to scan holds no text.
    ScanRequestDtoNoText,
}

/// The words of a message.
pub open spec fn message_text(message: ToErrorMessage) -> Seq<char> {
    match message {
        ToErrorMessage::FindRequestDtoNoTicketIds => "No ticket ids provided"@,
        ToErrorMessage::FindOrScanRequestDtoStoreUrlDoesNotExist => "store_url does not exist"@,
        ToErrorMessage::ScanRequestDtoNoText => "No text is provided"@,
    }
}

/// The message that has the given words.
pub open spec fn message_of(text: Seq<char>) -> Option<ToErrorMessage> {
    if text == "No ticket ids provided"@ {
        Some(ToErrorMessage::FindRequestDtoNoTicketIds)
    } else if text == "store_url does not exist"@ {
        Some(ToErrorMessage::FindOrScanRequestDtoStoreUrlDoesNotExist)
    } else if text == "No text is provided"@ {
        Some(ToErrorMessage::ScanRequestDtoNoText)
    } else {
        None
    }
}

/// The words of a message name that message.
pub proof fn lemma_message_round_trip(message: ToErrorMessage)
    ensures
        message_of(message_text(message)) == Some(message),
{
    reveal_strlit("No ticket ids provided");
    reveal_strlit("store_url does not exist");
    reveal_strlit("No text is provided");
    assert("No ticket ids provided"@.len() != "store_url does not exist"@.len());
    assert("No ticket ids provided"@.len() != "No text is provided"@.len());
    assert("store_url does not exist"@.len() != "No text is provided"@.len());
}

impl ToErrorMessage {
    /// The words of the message.
    pub fn to_string(&self) -> (text: String)
        ensures
            text@ == message_text(*self),
    {
        match self {
            ToErrorMessage::FindRequestDtoNoTicketIds => "No ticket ids provided".to_owned(),
            ToErrorMessage::FindOrScanRequestDtoStoreUrlDoesNotExist => {
                "store_url does not exist".to_owned()
            },
            ToErrorMessage::ScanRequestDtoNoText => "No text is provided".to_owned(),
        }
    }

    /// The message that has the words `text`, where there is one.
    pub fn from_str(text: &str) -> (message: Option<ToErrorMessage>)
        ensures
            message == message_of(text@),
    {
        let chars = chars_of(text);
        if same_text(chars.as_slice(), chars_of("No ticket ids provided").as_slice()) {
            Some(ToErrorMessage::FindRequestDtoNoTicketIds)
        } else if same_text(chars.as_slice(), chars_of("store_url does not exist").as_slice()) {
            Some(ToErrorMessage::FindOrScanRequestDtoStoreUrlDoesNotExist)
        } else if same_text(chars.as_slice(), chars_of("No text is provided").as_slice()) {
            Some(ToErrorMessage::ScanRequestDtoNoText)
        } else {
            None
        }
    }
}

} // verus!
