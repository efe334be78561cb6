//! Whether a store is on disk.

use vstd::prelude::*;

verus! {

/// `std::path::Path::exists`: whether something is found at `file_path` at
/// the moment of the call. Nothing is promised of the answer: it depends on
/// the file system.
#[verifier::external_body]
pub fn check_if_file_exists(file_path: &str) -> (exists: bool) {
    std::path::Path::new(file_path).exists()
}

} // verus!
