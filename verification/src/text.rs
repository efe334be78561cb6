//! Searching, cutting and joining character sequences.
//!
//! The marker format is defined over `Seq<char>`. The executable functions
//! here work on slices of `char`, so that an index is a count of characters
//! and costs one step to reach.

use vstd::prelude::*;
use vstd::utf8::{encode_scalar, encode_utf8};

verus! {

/// `needle` stands in `hay` at index `i`.
pub open spec fn occurs_at(hay: Seq<char>, needle: Seq<char>, i: int) -> bool {
    &&& 0 <= i
    &&& i + needle.len() <= hay.len()
    &&& hay.subrange(i, i + needle.len()) == needle
}

/// `needle` stands somewhere in `hay`.
pub open spec fn occurs_in(hay: Seq<char>, needle: Seq<char>) -> bool {
    exists|i: int| occurs_at(hay, needle, i)
}

/// The least index at or after `from` where `needle` stands in `hay`.
pub open spec fn first_index_from(hay: Seq<char>, needle: Seq<char>, from: int) -> Option<int>
    decreases hay.len() - from + 1,
{
    if from < 0 || from + needle.len() > hay.len() {
        None
    } else if occurs_at(hay, needle, from) {
        Some(from)
    } else {
        first_index_from(hay, needle, from + 1)
    }
}

/// The least index where `needle` stands in `hay`.
pub open spec fn first_index(hay: Seq<char>, needle: Seq<char>) -> Option<int> {
    first_index_from(hay, needle, 0)
}

/// `s` from index `start` to its end.
pub open spec fn tail(s: Seq<char>, start: int) -> Seq<char> {
    s.subrange(start, s.len() as int)
}

/// `s` with every occurrence of `pat` taken out. Occurrences are found from
/// left to right and do not overlap; an empty `pat` takes nothing out.
pub open spec fn without(s: Seq<char>, pat: Seq<char>) -> Seq<char>
    decreases s.len(),
{
    if pat.len() == 0 {
        s
    } else {
        match first_index(s, pat) {
            None => s,
            Some(i) => {
                proof {
                    lemma_first_index_from(s, pat, 0);
                }
                s.subrange(0, i) + without(tail(s, i + pat.len()), pat)
            },
        }
    }
}

/// The pieces of `s` between the occurrences of `sep`, in order. There is
/// always at least one piece; an empty `sep` cuts nowhere.
pub open spec fn pieces_of(s: Seq<char>, sep: Seq<char>) -> Seq<Seq<char>>
    decreases s.len(),
{
    if sep.len() == 0 {
        seq![s]
    } else {
        match first_index(s, sep) {
            None => seq![s],
            Some(i) => {
                proof {
                    lemma_first_index_from(s, sep, 0);
                }
                seq![s.subrange(0, i)] + pieces_of(tail(s, i + sep.len()), sep)
            },
        }
    }
}

/// `s` cut at the first occurrence of `sep`: what stands before it and what
/// stands after it. Without an occurrence the first part is `s` and the
/// second is empty.
pub open spec fn cut_once(s: Seq<char>, sep: Seq<char>) -> (Seq<char>, Seq<char>) {
    match first_index(s, sep) {
        Some(i) => (s.subrange(0, i), tail(s, i + sep.len())),
        None => (s, Seq::<char>::empty()),
    }
}

/// The pieces written one after another with `sep` between neighbours.
pub open spec fn joined(pieces: Seq<Seq<char>>, sep: Seq<char>) -> Seq<char>
    decreases pieces.len(),
{
    if pieces.len() == 0 {
        Seq::<char>::empty()
    } else if pieces.len() == 1 {
        pieces[0]
    } else {
        pieces[0] + sep + joined(pieces.drop_first(), sep)
    }
}

/// The character `c` stands nowhere in `s`.
pub open spec fn lacks(s: Seq<char>, c: char) -> bool {
    forall|i: int| 0 <= i < s.len() ==> s[i] != c
}

/// Every sequence of `pieces` lacks `c`.
pub open spec fn all_lack(pieces: Seq<Seq<char>>, c: char) -> bool {
    forall|k: int| 0 <= k < pieces.len() ==> lacks(#[trigger] pieces[k], c)
}

/// The number of bytes that `s` takes in UTF-8.
pub open spec fn utf8_len(s: Seq<char>) -> nat {
    encode_utf8(s).len()
}

/// The character sequences that a vector of character vectors holds.
pub open spec fn views(v: Seq<Vec<char>>) -> Seq<Seq<char>> {
    Seq::new(v.len(), |i: int| v[i]@)
}

/// What [`first_index_from`] finds is an occurrence, and the first one.
pub proof fn lemma_first_index_from(hay: Seq<char>, needle: Seq<char>, from: int)
    requires
        0 <= from,
    ensures
        match first_index_from(hay, needle, from) {
            Some(i) => {
                &&& from <= i
                &&& occurs_at(hay, needle, i)
                &&& forall|j: int| from <= j < i ==> !occurs_at(hay, needle, j)
            },
            None => forall|j: int| from <= j ==> !occurs_at(hay, needle, j),
        },
    decreases hay.len() - from + 1,
{
    if from + needle.len() > hay.len() {
    } else if occurs_at(hay, needle, from) {
    } else {
        lemma_first_index_from(hay, needle, from + 1);
    }
}

/// An occurrence with none before it is the one that [`first_index_from`] finds.
pub proof fn lemma_first_index_from_is(hay: Seq<char>, needle: Seq<char>, from: int, i: int)
    requires
        0 <= from <= i,
        occurs_at(hay, needle, i),
        forall|j: int| from <= j < i ==> !occurs_at(hay, needle, j),
    ensures
        first_index_from(hay, needle, from) == Some(i),
{
    lemma_first_index_from(hay, needle, from);
}

/// Where nothing occurs, [`first_index_from`] finds nothing.
pub proof fn lemma_first_index_from_none(hay: Seq<char>, needle: Seq<char>, from: int)
    requires
        0 <= from,
        forall|j: int| from <= j ==> !occurs_at(hay, needle, j),
    ensures
        first_index_from(hay, needle, from) is None,
{
    lemma_first_index_from(hay, needle, from);
}

/// An occurrence in a tail of `hay` is an occurrence in `hay`, shifted.
pub proof fn lemma_occurs_at_tail(hay: Seq<char>, needle: Seq<char>, start: int, k: int)
    requires
        0 <= start <= hay.len(),
        0 <= k,
    ensures
        occurs_at(tail(hay, start), needle, k) == occurs_at(hay, needle, start + k),
{
    if start + k + needle.len() <= hay.len() {
        assert(tail(hay, start).subrange(k, k + needle.len()) =~= hay.subrange(
            start + k,
            start + k + needle.len(),
        ));
    }
}

/// Searching a tail of `hay` from its start is searching `hay` from there.
pub proof fn lemma_first_index_tail(hay: Seq<char>, needle: Seq<char>, start: int)
    requires
        0 <= start <= hay.len(),
    ensures
        first_index(tail(hay, start), needle) == match first_index_from(hay, needle, start) {
            Some(i) => Some(i - start),
            None => None,
        },
{
    let rest = tail(hay, start);
    lemma_first_index_from(hay, needle, start);
    assert forall|k: int| 0 <= k implies occurs_at(rest, needle, k) == occurs_at(
        hay,
        needle,
        start + k,
    ) by {
        lemma_occurs_at_tail(hay, needle, start, k);
    }
    match first_index_from(hay, needle, start) {
        Some(i) => {
            assert(occurs_at(rest, needle, i - start));
            assert forall|k: int| 0 <= k < i - start implies !occurs_at(rest, needle, k) by {
                assert(!occurs_at(hay, needle, start + k));
            }
            lemma_first_index_from_is(rest, needle, 0, i - start);
        },
        None => {
            assert forall|k: int| 0 <= k implies !occurs_at(rest, needle, k) by {
                assert(!occurs_at(hay, needle, start + k));
            }
            lemma_first_index_from_none(rest, needle, 0);
        },
    }
}

/// Behind `before`, the first occurrence of `needle` stands behind a gap
/// that lacks the first character of `needle`.
pub proof fn lemma_find_behind_gap(
    before: Seq<char>,
    gap: Seq<char>,
    needle: Seq<char>,
    rest: Seq<char>,
)
    requires
        needle.len() > 0,
        lacks(gap, needle[0]),
    ensures
        first_index_from(before + gap + needle + rest, needle, before.len() as int) == Some(
            (before.len() + gap.len()) as int,
        ),
{
    let hay = before + gap + needle + rest;
    let at: int = (before.len() + gap.len()) as int;
    assert(hay.subrange(at, at + needle.len()) =~= needle);
    assert forall|j: int| before.len() <= j < at implies !occurs_at(hay, needle, j) by {
        if occurs_at(hay, needle, j) {
            assert(hay.subrange(j, j + needle.len())[0] == needle[0]);
            assert(hay[j] == gap[j - before.len()]);
        }
    }
    lemma_first_index_from_is(hay, needle, before.len() as int, at);
}

/// Behind `before`, `needle` does not occur in what lacks its first
/// character.
pub proof fn lemma_find_in_lacking(before: Seq<char>, rest: Seq<char>, needle: Seq<char>)
    requires
        needle.len() > 0,
        lacks(rest, needle[0]),
    ensures
        first_index_from(before + rest, needle, before.len() as int) is None,
{
    let hay = before + rest;
    assert forall|j: int| before.len() <= j implies !occurs_at(hay, needle, j) by {
        if occurs_at(hay, needle, j) {
            assert(hay.subrange(j, j + needle.len())[0] == needle[0]);
            assert(hay[j] == rest[j - before.len()]);
        }
    }
    lemma_first_index_from_none(hay, needle, before.len() as int);
}

/// Cutting what was joined gives the pieces back, where no piece holds the
/// first character of the separator.
pub proof fn lemma_pieces_of_joined(pieces: Seq<Seq<char>>, sep: Seq<char>)
    requires
        pieces.len() > 0,
        sep.len() > 0,
        all_lack(pieces, sep[0]),
    ensures
        pieces_of(joined(pieces, sep), sep) == pieces,
    decreases pieces.len(),
{
    let empty = Seq::<char>::empty();
    let first = pieces[0];
    if pieces.len() == 1 {
        lemma_find_in_lacking(empty, first, sep);
        assert(empty + first =~= first);
        assert(pieces =~= seq![first]);
    } else {
        let others = pieces.drop_first();
        let rest = joined(others, sep);
        assert forall|k: int| 0 <= k < others.len() implies lacks(#[trigger] others[k], sep[0]) by {
            assert(others[k] == pieces[k + 1]);
        }
        lemma_pieces_of_joined(others, sep);
        let whole = joined(pieces, sep);
        lemma_find_behind_gap(empty, first, sep, rest);
        assert(empty + first + sep + rest =~= whole);
        assert(whole.subrange(0, first.len() as int) =~= first);
        assert(tail(whole, (first.len() + sep.len()) as int) =~= rest);
        assert(pieces =~= seq![first] + others);
    }
}

/// What two sequences lack, their concatenation lacks.
pub proof fn lemma_lacks_concat(a: Seq<char>, b: Seq<char>, c: char)
    ensures
        lacks(a + b, c) == (lacks(a, c) && lacks(b, c)),
{
    if lacks(a, c) && lacks(b, c) {
        assert forall|i: int| 0 <= i < (a + b).len() implies (a + b)[i] != c by {
            if i < a.len() {
                assert((a + b)[i] == a[i]);
            } else {
                assert((a + b)[i] == b[i - a.len()]);
            }
        }
    }
    if lacks(a + b, c) {
        assert forall|i: int| 0 <= i < a.len() implies a[i] != c by {
            assert((a + b)[i] == a[i]);
        }
        assert forall|i: int| 0 <= i < b.len() implies b[i] != c by {
            assert((a + b)[i + a.len()] == b[i]);
        }
    }
}

/// What the pieces and the separator lack, their joining lacks.
pub proof fn lemma_joined_lacks(pieces: Seq<Seq<char>>, sep: Seq<char>, c: char)
    requires
        all_lack(pieces, c),
        lacks(sep, c),
    ensures
        lacks(joined(pieces, sep), c),
    decreases pieces.len(),
{
    if pieces.len() >= 2 {
        let others = pieces.drop_first();
        assert forall|k: int| 0 <= k < others.len() implies lacks(#[trigger] others[k], c) by {
            assert(others[k] == pieces[k + 1]);
        }
        lemma_joined_lacks(others, sep, c);
        lemma_lacks_concat(pieces[0], sep, c);
        lemma_lacks_concat(pieces[0] + sep, joined(others, sep), c);
    }
}

/// Nothing is taken out of what lacks the first character of the pattern.
pub proof fn lemma_without_lacking(s: Seq<char>, pat: Seq<char>)
    requires
        pat.len() > 0,
        lacks(s, pat[0]),
    ensures
        without(s, pat) == s,
{
    lemma_find_in_lacking(Seq::<char>::empty(), s, pat);
    assert(Seq::<char>::empty() + s =~= s);
}

/// A pattern at the start is taken out.
pub proof fn lemma_without_prefix(pat: Seq<char>, s: Seq<char>)
    requires
        pat.len() > 0,
    ensures
        without(pat + s, pat) == without(s, pat),
{
    let whole = pat + s;
    lemma_find_behind_gap(Seq::<char>::empty(), Seq::<char>::empty(), pat, s);
    assert(Seq::<char>::empty() + Seq::<char>::empty() + pat + s =~= whole);
    assert(whole.subrange(0, 0) =~= Seq::<char>::empty());
    assert(tail(whole, pat.len() as int) =~= s);
    assert(Seq::<char>::empty() + without(s, pat) =~= without(s, pat));
}

/// A pattern at the end is taken out, where what stands before it lacks the
/// first character of the pattern.
pub proof fn lemma_without_suffix(s: Seq<char>, pat: Seq<char>)
    requires
        pat.len() > 0,
        lacks(s, pat[0]),
    ensures
        without(s + pat, pat) == s,
{
    let whole = s + pat;
    let empty = Seq::<char>::empty();
    lemma_find_behind_gap(empty, s, pat, empty);
    assert(empty + s + pat + empty =~= whole);
    assert(whole.subrange(0, s.len() as int) =~= s);
    assert(tail(whole, (s.len() + pat.len()) as int) =~= empty);
    assert(first_index(empty, pat) is None);
    assert(without(empty, pat) == empty);
    assert(first_index(whole, pat) == Some(s.len() as int));
    assert(without(whole, pat) == whole.subrange(0, s.len() as int) + without(
        tail(whole, (s.len() + pat.len()) as int),
        pat,
    ));
    assert(s + empty =~= s);
}

/// A key, the separator and a value are cut into the key and the value,
/// where the key lacks the first character of the separator.
pub proof fn lemma_cut_once_behind(key: Seq<char>, sep: Seq<char>, value: Seq<char>)
    requires
        sep.len() > 0,
        lacks(key, sep[0]),
    ensures
        cut_once(key + sep + value, sep) == (key, value),
{
    let whole = key + sep + value;
    let empty = Seq::<char>::empty();
    lemma_find_behind_gap(empty, key, sep, value);
    assert(empty + key + sep + value =~= whole);
    assert(whole.subrange(0, key.len() as int) =~= key);
    assert(tail(whole, (key.len() + sep.len()) as int) =~= value);
}

/// The pieces with the padding that joining with a padded separator leaves
/// on them: `first_pad` before the first piece, a space before every other
/// piece, and a space behind every piece but the last.
pub open spec fn padded(pieces: Seq<Seq<char>>, first_pad: Seq<char>) -> Seq<Seq<char>>
    decreases pieces.len(),
{
    if pieces.len() == 0 {
        Seq::<Seq<char>>::empty()
    } else if pieces.len() == 1 {
        seq![first_pad + pieces[0]]
    } else {
        seq![first_pad + pieces[0] + seq![' ']] + padded(pieces.drop_first(), seq![' '])
    }
}

/// Joining with a separator between spaces is joining the padded pieces
/// with the bare separator.
pub proof fn lemma_joined_padded(pieces: Seq<Seq<char>>, first_pad: Seq<char>, sep: Seq<char>)
    requires
        pieces.len() > 0,
    ensures
        joined(padded(pieces, first_pad), sep) == first_pad + joined(
            pieces,
            seq![' '] + sep + seq![' '],
        ),
        padded(pieces, first_pad).len() == pieces.len(),
    decreases pieces.len(),
{
    let wide = seq![' '] + sep + seq![' '];
    if pieces.len() >= 2 {
        let others = pieces.drop_first();
        lemma_joined_padded(others, seq![' '], sep);
        let these = padded(pieces, first_pad);
        assert(these.drop_first() =~= padded(others, seq![' ']));
        assert(joined(these, sep) =~= first_pad + joined(pieces, wide));
    }
}

/// Joining one more piece puts `sep` and the piece at the end.
pub proof fn lemma_joined_push(pieces: Seq<Seq<char>>, sep: Seq<char>, last: Seq<char>)
    requires
        pieces.len() > 0,
    ensures
        joined(pieces.push(last), sep) == joined(pieces, sep) + sep + last,
    decreases pieces.len(),
{
    let all = pieces.push(last);
    assert(all.drop_first() =~= pieces.drop_first().push(last));
    if pieces.len() == 1 {
        assert(all.drop_first() =~= seq![last]);
        assert(joined(all.drop_first(), sep) == last);
        assert(joined(all, sep) =~= joined(pieces, sep) + sep + last);
    } else {
        lemma_joined_push(pieces.drop_first(), sep, last);
        assert(joined(all, sep) =~= joined(pieces, sep) + sep + last);
    }
}

/// The bytes of a sequence are those of its first part and those of the rest.
pub proof fn lemma_utf8_len_concat(a: Seq<char>, b: Seq<char>)
    ensures
        utf8_len(a + b) == utf8_len(a) + utf8_len(b),
    decreases a.len(),
{
    if a.len() == 0 {
        assert(a + b =~= b);
    } else {
        assert((a + b).drop_first() =~= a.drop_first() + b);
        lemma_utf8_len_concat(a.drop_first(), b);
    }
}

/// A part of a sequence takes no more bytes than the whole.
pub proof fn lemma_utf8_len_subrange(s: Seq<char>, from: int, to: int)
    requires
        0 <= from <= to <= s.len(),
    ensures
        utf8_len(s.subrange(from, to)) <= utf8_len(s),
{
    let head = s.subrange(0, from);
    let mid = s.subrange(from, to);
    let rest = s.subrange(to, s.len() as int);
    assert(s =~= head + (mid + rest));
    lemma_utf8_len_concat(head, mid + rest);
    lemma_utf8_len_concat(mid, rest);
}

/// The characters of `s`, one element each.
pub fn chars_of(s: &str) -> (chars: Vec<char>)
    ensures
        chars@ == s@,
{
    broadcast use vstd::string::group_string_axioms;

    let mut chars: Vec<char> = Vec::new();
    for c in it: s.chars()
        invariant
            it.seq() == s@,
            chars@ == s@.subrange(0, it.index() as int),
    {
        chars.push(c);
    }
    assert(chars@ =~= s@);
    chars
}

/// `String::from_iter` over a slice of characters: the string that holds
/// exactly these characters, in this order.
#[verifier::external_body]
pub(crate) fn string_of(chars: &[char]) -> (s: String)
    ensures
        s@ == chars@,
{
    String::from_iter(chars.iter())
}

/// Appends the characters of `s` from index `from` up to `to` to `out`.
pub fn push_range(out: &mut Vec<char>, s: &[char], from: usize, to: usize)
    requires
        from <= to <= s@.len(),
    ensures
        final(out)@ == old(out)@ + s@.subrange(from as int, to as int),
{
    let mut i: usize = from;
    while i < to
        invariant
            from <= i <= to <= s@.len(),
            out@ == old(out)@ + s@.subrange(from as int, i as int),
        decreases to - i,
    {
        out.push(s[i]);
        i += 1;
        assert(out@ =~= old(out)@ + s@.subrange(from as int, i as int));
    }
    assert(out@ =~= old(out)@ + s@.subrange(from as int, to as int));
}

/// A copy of the characters of `s` from index `from` up to `to`.
pub fn copy_range(s: &[char], from: usize, to: usize) -> (out: Vec<char>)
    requires
        from <= to <= s@.len(),
    ensures
        out@ == s@.subrange(from as int, to as int),
{
    let mut out: Vec<char> = Vec::new();
    push_range(&mut out, s, from, to);
    assert(out@ =~= s@.subrange(from as int, to as int));
    out
}

/// The number of bytes that `c` takes in UTF-8.
pub fn char_width(c: char) -> (width: usize)
    ensures
        width == encode_scalar(c as u32).len(),
        1 <= width <= 4,
{
    let code: u32 = c as u32;
    if code <= 0x7F {
        1
    } else if code <= 0x7FF {
        2
    } else if code <= 0xFFFF {
        proof {
            vstd::utf8::char_is_scalar(c);
        }
        3
    } else {
        4
    }
}

/// The number of bytes that the characters of `s` from index `from` up to
/// `to` take in UTF-8.
pub fn utf8_len_of(s: &[char], from: usize, to: usize) -> (bytes: usize)
    requires
        from <= to <= s@.len(),
        utf8_len(s@.subrange(from as int, to as int)) <= usize::MAX,
    ensures
        bytes == utf8_len(s@.subrange(from as int, to as int)),
{
    let mut bytes: usize = 0;
    let mut i: usize = from;
    assert(s@.subrange(from as int, from as int) =~= Seq::<char>::empty());
    while i < to
        invariant
            from <= i <= to <= s@.len(),
            bytes == utf8_len(s@.subrange(from as int, i as int)),
            utf8_len(s@.subrange(from as int, to as int)) <= usize::MAX,
        decreases to - i,
    {
        let width = char_width(s[i]);
        proof {
            let done = s@.subrange(from as int, i as int);
            let one = seq![s@[i as int]];
            assert(s@.subrange(from as int, i + 1) =~= done + one);
            lemma_utf8_len_concat(done, one);
            assert(one.drop_first() =~= Seq::<char>::empty());
            assert(encode_utf8(one.drop_first()) =~= Seq::<u8>::empty());
            assert(encode_utf8(one) =~= encode_scalar(one[0] as u32));
            lemma_utf8_len_subrange(s@.subrange(from as int, to as int), 0, i + 1 - from);
            assert(s@.subrange(from as int, to as int).subrange(0, i + 1 - from) =~= s@.subrange(
                from as int,
                i + 1,
            ));
        }
        bytes = bytes + width;
        i += 1;
    }
    bytes
}

/// Whether the two slices hold the same characters.
pub fn same_text(a: &[char], b: &[char]) -> (same: bool)
    ensures
        same == (a@ == b@),
{
    if a.len() != b.len() {
        return false;
    }
    let mut i: usize = 0;
    while i < a.len()
        invariant
            i <= a@.len(),
            a@.len() == b@.len(),
            forall|j: int| 0 <= j < i ==> a@[j] == b@[j],
        decreases a.len() - i,
    {
        if a[i] != b[i] {
            return false;
        }
        i += 1;
    }
    assert(a@ =~= b@);
    true
}

/// Whether `needle` stands in `hay` at index `i`.
pub fn matches_at(hay: &[char], needle: &[char], i: usize) -> (found: bool)
    ensures
        found == occurs_at(hay@, needle@, i as int),
{
    if needle.len() > hay.len() || i > hay.len() - needle.len() {
        return false;
    }
    let mut k: usize = 0;
    while k < needle.len()
        invariant
            k <= needle.len(),
            i + needle.len() <= hay.len(),
            forall|j: int| 0 <= j < k ==> hay@[i + j] == needle@[j],
        decreases needle.len() - k,
    {
        if hay[i + k] != needle[k] {
            assert(hay@.subrange(i as int, i + needle@.len())[k as int] != needle@[k as int]);
            return false;
        }
        k += 1;
    }
    assert(hay@.subrange(i as int, i + needle@.len()) =~= needle@);
    true
}

/// The first index at or after `from` where `needle` stands in `hay`.
pub fn find_from(hay: &[char], needle: &[char], from: usize) -> (found: Option<usize>)
    ensures
        match found {
            Some(i) => first_index_from(hay@, needle@, from as int) == Some(i as int),
            None => first_index_from(hay@, needle@, from as int) is None,
        },
{
    if needle.len() > hay.len() || from > hay.len() - needle.len() {
        return None;
    }
    if needle.len() == 0 {
        assert(hay@.subrange(from as int, from as int) =~= needle@);
        return Some(from);
    }
    let last: usize = hay.len() - needle.len();
    let mut i: usize = from;
    while i <= last
        invariant
            from <= i <= last + 1,
            needle.len() > 0,
            last == hay.len() - needle.len(),
            first_index_from(hay@, needle@, from as int) == first_index_from(
                hay@,
                needle@,
                i as int,
            ),
        decreases last + 1 - i,
    {
        if matches_at(hay, needle, i) {
            return Some(i);
        }
        i += 1;
    }
    None
}

/// `s` with every occurrence of `pat` taken out.
pub fn remove_all(s: &[char], pat: &[char]) -> (out: Vec<char>)
    ensures
        out@ == without(s@, pat@),
{
    let mut out: Vec<char> = Vec::new();
    if pat.len() == 0 {
        push_range(&mut out, s, 0, s.len());
        assert(out@ =~= s@);
        return out;
    }
    let mut pos: usize = 0;
    assert(out@ + without(tail(s@, 0), pat@) =~= without(s@, pat@)) by {
        assert(tail(s@, 0) =~= s@);
    }
    loop
        invariant
            pos <= s.len(),
            pat.len() > 0,
            without(s@, pat@) == out@ + without(tail(s@, pos as int), pat@),
        decreases s.len() - pos,
    {
        let ghost rest = tail(s@, pos as int);
        let ghost before = out@;
        proof {
            lemma_first_index_tail(s@, pat@, pos as int);
            lemma_first_index_from(s@, pat@, pos as int);
        }
        match find_from(s, pat, pos) {
            None => {
                push_range(&mut out, s, pos, s.len());
                return out;
            },
            Some(i) => {
                push_range(&mut out, s, pos, i);
                proof {
                    assert(rest.subrange(0, i - pos) =~= s@.subrange(pos as int, i as int));
                    assert(tail(rest, i - pos + pat@.len()) =~= tail(s@, i + pat@.len()));
                    assert(out@ + without(tail(s@, i + pat@.len()), pat@) =~= before + without(
                        rest,
                        pat@,
                    ));
                }
                pos = i + pat.len();
            },
        }
    }
}

/// The pieces of `s` between the occurrences of `sep`.
pub fn split(s: &[char], sep: &[char]) -> (pieces: Vec<Vec<char>>)
    ensures
        views(pieces@) == pieces_of(s@, sep@),
{
    let mut pieces: Vec<Vec<char>> = Vec::new();
    if sep.len() == 0 {
        pieces.push(copy_range(s, 0, s.len()));
        assert(s@.subrange(0, s@.len() as int) =~= s@);
        assert(views(pieces@) =~= seq![s@]);
        return pieces;
    }
    let mut pos: usize = 0;
    assert(views(pieces@) + pieces_of(tail(s@, 0), sep@) =~= pieces_of(s@, sep@)) by {
        assert(tail(s@, 0) =~= s@);
    }
    loop
        invariant
            pos <= s.len(),
            sep.len() > 0,
            pieces_of(s@, sep@) == views(pieces@) + pieces_of(tail(s@, pos as int), sep@),
        decreases s.len() - pos,
    {
        let ghost rest = tail(s@, pos as int);
        let ghost before = views(pieces@);
        proof {
            lemma_first_index_tail(s@, sep@, pos as int);
            lemma_first_index_from(s@, sep@, pos as int);
        }
        match find_from(s, sep, pos) {
            None => {
                pieces.push(copy_range(s, pos, s.len()));
                assert(views(pieces@) =~= before + seq![rest]);
                return pieces;
            },
            Some(i) => {
                pieces.push(copy_range(s, pos, i));
                proof {
                    assert(rest.subrange(0, i - pos) =~= s@.subrange(pos as int, i as int));
                    assert(tail(rest, i - pos + sep@.len()) =~= tail(s@, i + sep@.len()));
                    assert(views(pieces@) =~= before + seq![rest.subrange(0, i - pos)]);
                    assert(views(pieces@) + pieces_of(tail(s@, i + sep@.len()), sep@) =~= before
                        + pieces_of(rest, sep@));
                }
                pos = i + sep.len();
            },
        }
    }
}

/// `s` cut at the first occurrence of `sep`.
pub fn split_once(s: &[char], sep: &[char]) -> (parts: (Vec<char>, Vec<char>))
    ensures
        (parts.0@, parts.1@) == cut_once(s@, sep@),
{
    proof {
        lemma_first_index_from(s@, sep@, 0);
    }
    let end: usize = s.len();
    match find_from(s, sep, 0) {
        Some(i) => {
            assert(occurs_at(s@, sep@, i as int));
            (copy_range(s, 0, i), copy_range(s, i + sep.len(), end))
        },
        None => {
            let whole = copy_range(s, 0, s.len());
            assert(whole@ =~= s@);
            (whole, Vec::new())
        },
    }
}

/// The pieces written one after another with `sep` between neighbours.
pub fn join(pieces: &Vec<Vec<char>>, sep: &[char]) -> (out: Vec<char>)
    ensures
        out@ == joined(views(pieces@), sep@),
{
    let mut out: Vec<char> = Vec::new();
    let mut i: usize = 0;
    while i < pieces.len()
        invariant
            i <= pieces@.len(),
            out@ == joined(views(pieces@).subrange(0, i as int), sep@),
        decreases pieces.len() - i,
    {
        let ghost done = views(pieces@).subrange(0, i as int);
        if i > 0 {
            push_range(&mut out, sep, 0, sep.len());
        }
        let piece: &Vec<char> = &pieces[i];
        push_range(&mut out, piece.as_slice(), 0, piece.len());
        proof {
            assert(sep@.subrange(0, sep@.len() as int) =~= sep@);
            assert(piece@.subrange(0, piece@.len() as int) =~= piece@);
            assert(views(pieces@).subrange(0, i + 1) =~= done.push(piece@));
            if i > 0 {
                lemma_joined_push(done, sep@, piece@);
            } else {
                assert(out@ =~= piece@);
            }
        }
        i += 1;
    }
    assert(views(pieces@).subrange(0, pieces@.len() as int) =~= views(pieces@));
    out
}

} // verus!
