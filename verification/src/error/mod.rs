//! What goes wrong with a request, as it is told to the one who made it.

pub mod error_message;

use crate::to_card::to_card_convert_rule::{rule_views, RuleView, TextualObjectCardConvertRule};
use vstd::prelude::*;

verus! {

/// What an error hands to the user besides its words.
pub enum ToErrorPayload {
    /// Nothing.
    Nothing,
    /// Whether all rules for the card were valid, and those that were not.
    InvalidCardMapRules { all_valid: bool, rules: Vec<TextualObjectCardConvertRule> },
}

/// A payload as plain values.
pub enum PayloadView {
    Nothing,
    InvalidCardMapRules { all_valid: bool, rules: Seq<RuleView> },
}

impl View for ToErrorPayload {
    type V = PayloadView;

    open spec fn view(&self) -> PayloadView {
        match self {
            ToErrorPayload::Nothing => PayloadView::Nothing,
            ToErrorPayload::InvalidCardMapRules { all_valid, rules } => {
                PayloadView::InvalidCardMapRules { all_valid: *all_valid, rules: rule_views(rules@) }
            },
        }
    }
}

/// An error message as plain values.
pub struct ErrorMessageView {
    pub code: Option<usize>,
    pub message: Seq<char>,
    pub suggestion: Seq<char>,
    pub payload_for_user: PayloadView,
    pub payload_from_user: PayloadView,
}

impl ErrorMessageView {
    /// The message that says nothing.
    pub open spec fn blank() -> ErrorMessageView {
        ErrorMessageView {
            code: None,
            message: Seq::<char>::empty(),
            suggestion: Seq::<char>::empty(),
            payload_for_user: PayloadView::Nothing,
            payload_from_user: PayloadView::Nothing,
        }
    }
}

/// What is told of an error: a code, the message, a suggestion, and what is
/// handed back with them.
pub struct TextualObjectErrorMessage {
    pub code: Option<usize>,
    pub message: String,
    pub suggestion: String,
    pub payload_for_user: ToErrorPayload,
    pub payload_from_user: ToErrorPayload,
}

impl View for TextualObjectErrorMessage {
    type V = ErrorMessageView;

    open spec fn view(&self) -> ErrorMessageView {
        ErrorMessageView {
            code: self.code,
            message: self.message@,
            suggestion: self.suggestion@,
            payload_for_user: self.payload_for_user@,
            payload_from_user: self.payload_from_user@,
        }
    }
}

impl Default for TextualObjectErrorMessage {
    fn default() -> (message: Self)
        ensures
            message@ == ErrorMessageView::blank(),
    {
        TextualObjectErrorMessage {
            code: None,
            message: String::new(),
            suggestion: String::new(),
            payload_for_user: ToErrorPayload::Nothing,
            payload_from_user: ToErrorPayload::Nothing,
        }
    }
}

/// The errors of requests.
pub enum ToErrors {
    /// A request to add textual objects cannot be served.
    AddManyRequestError(TextualObjectErrorMessage),
    /// A request to find textual objects cannot be served.
    FindRequestError(TextualObjectErrorMessage),
}

/// An error as plain values.
pub enum ErrorsView {
    AddManyRequestError(ErrorMessageView),
    FindRequestError(ErrorMessageView),
}

impl View for ToErrors {
    type V = ErrorsView;

    open spec fn view(&self) -> ErrorsView {
        match self {
            ToErrors::AddManyRequestError(message) => ErrorsView::AddManyRequestError(message@),
            ToErrors::FindRequestError(message) => ErrorsView::FindRequestError(message@),
        }
    }
}

/// The words for an error of which no more is to be said.
pub open spec fn generic_text(error: ErrorsView) -> Seq<char> {
    match error {
        ErrorsView::AddManyRequestError(_) => "Add Many Request DTO Error"@,
        ErrorsView::FindRequestError(_) => "Find Request DTO Error"@,
    }
}

impl ToErrors {
    /// The words for an error of which no more is to be said.
    pub fn generic_error_message(error: ToErrors) -> (text: String)
        ensures
            text@ == generic_text(error@),
    {
        match error {
            ToErrors::AddManyRequestError(_) => "Add Many Request DTO Error".to_owned(),
            ToErrors::FindRequestError(_) => "Find Request DTO Error".to_owned(),
        }
    }

    /// The message that holds the generic words for `error` and nothing else.
    pub fn default_with_generic_message(error: ToErrors) -> (message: TextualObjectErrorMessage)
        ensures
            message@ == (ErrorMessageView { message: generic_text(error@), ..ErrorMessageView::blank() }),
    {
        TextualObjectErrorMessage {
            code: None,
            message: ToErrors::generic_error_message(error),
            suggestion: String::new(),
            payload_for_user: ToErrorPayload::Nothing,
            payload_from_user: ToErrorPayload::Nothing,
        }
    }

    /// The message that the error carries.
    pub fn message(&self) -> (message: &TextualObjectErrorMessage)
        ensures
            match self@ {
                ErrorsView::AddManyRequestError(m) => message@ == m,
                ErrorsView::FindRequestError(m) => message@ == m,
            },
    {
        match self {
            ToErrors::AddManyRequestError(message) => message,
            ToErrors::FindRequestError(message) => message,
        }
    }
}

} // verus!
