//! Fresh ids for tickets.

use vstd::prelude::*;

verus! {

/// `c` is a letter of the alphabet that ids are drawn from: an ASCII letter,
/// a digit, `_` or `-`.
pub open spec fn is_id_char(c: char) -> bool {
    ||| 'a' <= c <= 'z'
    ||| 'A' <= c <= 'Z'
    ||| '0' <= c <= '9'
    ||| c == '_'
    ||| c == '-'
}

/// `id` could have been drawn as a fresh id of `size` characters.
pub open spec fn is_fresh_id(id: Seq<char>, size: nat) -> bool {
    &&& id.len() == size
    &&& forall|i: int| 0 <= i < id.len() ==> is_id_char(#[trigger] id[i])
}

/// `nanoid::format` with the crate's default random source and its `SAFE`
/// alphabet: a string of exactly `size` characters, each drawn at random from
/// that alphabet. The call does not return for a size of 0, and it computes
/// eight times the size.
#[verifier::external_body]
fn nanoid_format(size: usize) -> (id: String)
    requires
        0 < size,
        8 * size <= usize::MAX,
    ensures
        is_fresh_id(id@, size as nat),
{
    nanoid::format(nanoid::rngs::default, &nanoid::alphabet::SAFE, size)
}

/// A fresh id of `size` characters.
pub(crate) fn fresh_id(size: usize) -> (id: String)
    requires
        0 < size,
        8 * size <= usize::MAX,
    ensures
        is_fresh_id(id@, size as nat),
{
    nanoid_format(size)
}

/// A fresh id of five characters, such as a new ticket takes.
pub fn generate_id() -> (id: String)
    ensures
        is_fresh_id(id@, 5),
{
    fresh_id(5)
}

} // verus!
