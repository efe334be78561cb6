//! The directory and the file name in the path of a store.

use crate::text::{chars_of, copy_range, string_of};
use vstd::prelude::*;

verus! {

/// `c` parts a directory from what lies in it. Both the slash and the
/// backslash do, so that a path reads the same wherever it was written.
pub open spec fn is_path_separator(c: char) -> bool {
    c == '/' || c == '\\'
}

/// The index of the last separator in `path`.
pub open spec fn last_separator(path: Seq<char>) -> Option<int>
    decreases path.len(),
{
    if path.len() == 0 {
        None
    } else if is_path_separator(path.last()) {
        Some(path.len() - 1)
    } else {
        last_separator(path.drop_last())
    }
}

/// What stands before the last separator of `path` and what stands after it.
/// A path without a separator is a file name in no directory.
pub open spec fn split_path(path: Seq<char>) -> (Seq<char>, Seq<char>) {
    match last_separator(path) {
        Some(i) => (path.subrange(0, i), path.subrange(i + 1, path.len() as int)),
        None => (Seq::<char>::empty(), path),
    }
}

/// The directory and the file name of `store_path`.
pub fn split_store_path(store_path: &str) -> (parts: (String, String))
    ensures
        (parts.0@, parts.1@) == split_path(store_path@),
{
    let path = chars_of(store_path);
    let n: usize = path.len();
    let mut i: usize = n;
    assert(path@.subrange(0, n as int) =~= path@);
    while i > 0
        invariant
            i <= n == path@.len(),
            path@ == store_path@,
            last_separator(path@) == last_separator(path@.subrange(0, i as int)),
        decreases i,
    {
        let ghost head = path@.subrange(0, i as int);
        let c: char = path[i - 1];
        if c == '/' || c == '\\' {
            assert(head.last() == c);
            assert(last_separator(head) == Some(i - 1));
            assert(split_path(path@) == (
                path@.subrange(0, i - 1),
                path@.subrange(i as int, n as int),
            ));
            let dir = copy_range(path.as_slice(), 0, i - 1);
            let name = copy_range(path.as_slice(), i, n);
            return (string_of(dir.as_slice()), string_of(name.as_slice()));
        }
        assert(head.drop_last() =~= path@.subrange(0, i - 1));
        i -= 1;
    }
    assert(last_separator(path@.subrange(0, 0)) is None);
    (string_of(Vec::<char>::new().as_slice()), string_of(path.as_slice()))
}

} // verus!
