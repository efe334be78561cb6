//! The delimiters and separators of the marker format.

use crate::text::{chars_of, find_from, lemma_first_index_from, occurs_at, occurs_in};
use vstd::prelude::*;

verus! {

/// The marker format's four strings, as character sequences.
pub struct MarkerView {
    pub left_marker: Seq<char>,
    pub right_marker: Seq<char>,
    pub value_entry_separator: Seq<char>,
    pub value_separator: Seq<char>,
}

impl MarkerView {
    /// The format can be read without ambiguity: no string is empty, and
    /// neither separator stands inside a delimiter.
    pub open spec fn wf(self) -> bool {
        &&& self.left_marker.len() > 0
        &&& self.right_marker.len() > 0
        &&& self.value_entry_separator.len() > 0
        &&& self.value_separator.len() > 0
        &&& !occurs_in(self.left_marker, self.value_entry_separator)
        &&& !occurs_in(self.left_marker, self.value_separator)
        &&& !occurs_in(self.right_marker, self.value_entry_separator)
        &&& !occurs_in(self.right_marker, self.value_separator)
    }

    /// `[[`, `]]`, `|` and `:`.
    pub open spec fn standard() -> MarkerView {
        MarkerView {
            left_marker: "[["@,
            right_marker: "]]"@,
            value_entry_separator: "|"@,
            value_separator: ":"@,
        }
    }
}

/// The strings that bound a marker and separate what stands in it.
pub struct ToMarker {
    pub left_marker: String,
    pub right_marker: String,
    pub value_entry_separator: String,
    pub value_separator: String,
}

impl View for ToMarker {
    type V = MarkerView;

    open spec fn view(&self) -> MarkerView {
        MarkerView {
            left_marker: self.left_marker@,
            right_marker: self.right_marker@,
            value_entry_separator: self.value_entry_separator@,
            value_separator: self.value_separator@,
        }
    }
}

impl Clone for ToMarker {
    fn clone(&self) -> (copy: Self)
        ensures
            copy@ == self@,
    {
        ToMarker {
            left_marker: self.left_marker.clone(),
            right_marker: self.right_marker.clone(),
            value_entry_separator: self.value_entry_separator.clone(),
            value_separator: self.value_separator.clone(),
        }
    }
}

impl Default for ToMarker {
    fn default() -> (marker: Self)
        ensures
            marker@ == MarkerView::standard(),
    {
        ToMarker {
            left_marker: "[[".to_owned(),
            right_marker: "]]".to_owned(),
            value_entry_separator: "|".to_owned(),
            value_separator: ":".to_owned(),
        }
    }
}

/// Whether `needle` stands somewhere in `hay`.
fn contains(hay: &[char], needle: &[char]) -> (found: bool)
    ensures
        found == occurs_in(hay@, needle@),
{
    proof {
        lemma_first_index_from(hay@, needle@, 0);
    }
    match find_from(hay, needle, 0) {
        Some(i) => {
            assert(occurs_at(hay@, needle@, i as int));
            true
        },
        None => {
            assert forall|j: int| !occurs_at(hay@, needle@, j) by {
                if j >= 0 {
                    assert(!occurs_at(hay@, needle@, j));
                }
            }
            false
        },
    }
}

impl ToMarker {
    /// Whether this format can be read without ambiguity.
    pub fn is_valid(&self) -> (valid: bool)
        ensures
            valid == self@.wf(),
    {
        let left = chars_of(self.left_marker.as_str());
        let right = chars_of(self.right_marker.as_str());
        let entry_sep = chars_of(self.value_entry_separator.as_str());
        let value_sep = chars_of(self.value_separator.as_str());
        left.len() > 0 && right.len() > 0 && entry_sep.len() > 0 && value_sep.len() > 0
            && !contains(left.as_slice(), entry_sep.as_slice()) && !contains(
            left.as_slice(),
            value_sep.as_slice(),
        ) && !contains(right.as_slice(), entry_sep.as_slice()) && !contains(
            right.as_slice(),
            value_sep.as_slice(),
        )
    }

    /// A format of the four given strings, or `None` where they cannot be
    /// read without ambiguity: where one of them is empty, or a separator
    /// stands inside a delimiter.
    pub fn new(
        left_marker: &str,
        right_marker: &str,
        value_entry_separator: &str,
        value_separator: &str,
    ) -> (made: Option<ToMarker>)
        ensures
            match made {
                Some(marker) => {
                    &&& marker@.wf()
                    &&& marker@.left_marker == left_marker@
                    &&& marker@.right_marker == right_marker@
                    &&& marker@.value_entry_separator == value_entry_separator@
                    &&& marker@.value_separator == value_separator@
                },
                None => !(MarkerView {
                    left_marker: left_marker@,
                    right_marker: right_marker@,
                    value_entry_separator: value_entry_separator@,
                    value_separator: value_separator@,
                }).wf(),
            },
    {
        let marker = ToMarker {
            left_marker: left_marker.to_owned(),
            right_marker: right_marker.to_owned(),
            value_entry_separator: value_entry_separator.to_owned(),
            value_separator: value_separator.to_owned(),
        };
        if marker.is_valid() {
            Some(marker)
        } else {
            None
        }
    }
}

/// The standard format can be read without ambiguity.
pub proof fn lemma_standard_marker_wf()
    ensures
        MarkerView::standard().wf(),
{
    let m = MarkerView::standard();
    reveal_strlit("[[");
    reveal_strlit("]]");
    reveal_strlit("|");
    reveal_strlit(":");
    assert forall|i: int| !occurs_at(m.left_marker, m.value_entry_separator, i) by {
        if occurs_at(m.left_marker, m.value_entry_separator, i) {
            assert(m.left_marker.subrange(i, i + 1)[0] == m.value_entry_separator[0]);
        }
    }
    assert forall|i: int| !occurs_at(m.left_marker, m.value_separator, i) by {
        if occurs_at(m.left_marker, m.value_separator, i) {
            assert(m.left_marker.subrange(i, i + 1)[0] == m.value_separator[0]);
        }
    }
    assert forall|i: int| !occurs_at(m.right_marker, m.value_entry_separator, i) by {
        if occurs_at(m.right_marker, m.value_entry_separator, i) {
            assert(m.right_marker.subrange(i, i + 1)[0] == m.value_entry_separator[0]);
        }
    }
    assert forall|i: int| !occurs_at(m.right_marker, m.value_separator, i) by {
        if occurs_at(m.right_marker, m.value_separator, i) {
            assert(m.right_marker.subrange(i, i + 1)[0] == m.value_separator[0]);
        }
    }
}

} // verus!
