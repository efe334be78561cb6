//! Small helpers: fresh ids and paths of stores.

pub mod check_if_file_exists;
pub mod get_random_test_database_dir;
pub mod id_generator;
pub mod split_store_path;

use crate::utils::id_generator::{fresh_id, is_fresh_id};
use vstd::prelude::*;

verus! {

/// A fresh id of seven characters.
pub fn generate_id() -> (id: String)
    ensures
        is_fresh_id(id@, 7),
{
    fresh_id(7)
}

} // verus!
