//! The kinds of store.

use vstd::prelude::*;

verus! {

/// Where textual objects are kept.
#[derive(Debug, PartialEq, Eq, Clone, Copy, Structural)]
pub enum StoreType {
    /// A JSON file.
    JSON,
    /// An SQLite database.
    SQLITE,
}

} // verus!
