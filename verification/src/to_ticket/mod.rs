//! The ticket: one marker's content as a value, with its reader and writer.

pub mod parser;
pub mod to_ticket_error;
pub mod to_ticket_laws;
pub mod to_ticket_marker;
pub mod to_ticket_option;
pub mod to_ticket_parse;
pub mod to_ticket_position;
pub mod to_ticket_struct;
pub mod to_ticket_time;
pub mod to_ticket_utils;
pub mod to_ticket_values;
pub mod to_ticket_write;
