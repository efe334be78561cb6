//! Tickets: inline markers such as `[[id: a1b2c | topic: whales]]` that tie a
//! place in running prose to a stored textual object.
//!
//! The crate finds markers in text, reads them into [`to_ticket::to_ticket_struct::ToTicket`]
//! values and writes tickets back as marker text. Every function comes with a
//! contract over plain sequences of characters, and the contracts are proved.

pub mod enums;
pub mod error;
pub mod parser;
pub mod text;
pub mod to;
pub mod to_card;
pub mod to_machine;
pub mod to_parser;
pub mod to_tag;
pub mod to_ticket;
pub mod utils;
