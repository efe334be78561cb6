//! Where the stores of trial runs are kept.

use crate::text::{chars_of, push_range, string_of};
use vstd::prelude::*;

verus! {

/// The directory for trial stores below `base`: `resources/test/db` in
/// `base`. A slash parts the two unless `base` is empty or ends with one.
pub open spec fn test_database_dir(base: Seq<char>) -> Seq<char> {
    if base.len() == 0 || base.last() == '/' {
        base + "resources/test/db"@
    } else {
        base + "/"@ + "resources/test/db"@
    }
}

/// The directory for trial stores of the package whose directory is
/// `manifest_dir`.
pub fn get_random_test_database_dir(manifest_dir: &str) -> (dir: String)
    ensures
        dir@ == test_database_dir(manifest_dir@),
{
    let mut out = chars_of(manifest_dir);
    if out.len() > 0 && out[out.len() - 1] != '/' {
        let slash = chars_of("/");
        push_range(&mut out, slash.as_slice(), 0, slash.len());
        assert(slash@.subrange(0, slash@.len() as int) =~= slash@);
    }
    let rest = chars_of("resources/test/db");
    push_range(&mut out, rest.as_slice(), 0, rest.len());
    assert(rest@.subrange(0, rest@.len() as int) =~= rest@);
    string_of(out.as_slice())
}

} // verus!
