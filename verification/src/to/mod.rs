//! Textual objects: the records that tickets stand for, and the requests
//! that add and find them.

pub mod to_dto;
pub mod to_dtos;
pub mod to_struct;
pub mod to_ticket;
