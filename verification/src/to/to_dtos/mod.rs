//! The requests and what is answered to them.

pub mod to_add_dto;
pub mod to_find_dto;
pub mod to_scan_dto;
