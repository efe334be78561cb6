//! The rules by which the fields of a textual object fill its card.

use crate::text::chars_of;
use crate::to_card::to_card_struct::{field_name, is_field_name, ToCardField};
use vstd::prelude::*;

verus! {

/// A rule as plain values.
pub struct RuleView {
    pub card_field: Seq<char>,
    pub source_fields: Seq<Seq<char>>,
}

/// One rule: the field of the card to fill, and the fields of the source to
/// fill it from, the first that has a value winning.
#[derive(Debug)]
pub struct TextualObjectCardConvertRule {
    pub card_field: String,
    pub source_fields: Vec<String>,
}

/// The character sequences of the strings of a vector.
pub open spec fn string_views(strings: Seq<String>) -> Seq<Seq<char>> {
    Seq::new(strings.len(), |i: int| strings[i]@)
}

impl View for TextualObjectCardConvertRule {
    type V = RuleView;

    open spec fn view(&self) -> RuleView {
        RuleView { card_field: self.card_field@, source_fields: string_views(self.source_fields@) }
    }
}

/// The views of the rules of a vector.
pub open spec fn rule_views(rules: Seq<TextualObjectCardConvertRule>) -> Seq<RuleView> {
    Seq::new(rules.len(), |i: int| rules[i]@)
}

/// A copy of a vector of strings.
pub(crate) fn clone_strings(strings: &Vec<String>) -> (copy: Vec<String>)
    ensures
        string_views(copy@) == string_views(strings@),
{
    let mut copy: Vec<String> = Vec::new();
    let mut i: usize = 0;
    while i < strings.len()
        invariant
            i <= strings.len(),
            copy@.len() == i,
            forall|j: int| 0 <= j < i ==> copy@[j]@ == strings@[j]@,
        decreases strings.len() - i,
    {
        copy.push(strings[i].clone());
        i += 1;
    }
    assert(string_views(copy@) =~= string_views(strings@));
    copy
}

impl Clone for TextualObjectCardConvertRule {
    fn clone(&self) -> (copy: Self)
        ensures
            copy@ == self@,
    {
        TextualObjectCardConvertRule {
            card_field: self.card_field.clone(),
            source_fields: clone_strings(&self.source_fields),
        }
    }
}

impl TextualObjectCardConvertRule {
    /// Whether the rule fills a field that cards have.
    pub fn is_card_field_valid(&self) -> (valid: bool)
        ensures
            valid == is_field_name(self@.card_field),
    {
        let wanted = chars_of(self.card_field.as_str());
        let fields = ToCardField::iter();
        let mut i: usize = 0;
        while i < fields.len()
            invariant
                i <= fields.len(),
                wanted@ == self@.card_field,
                forall|j: int| 0 <= j < i ==> field_name(fields@[j]) != wanted@,
                forall|field: ToCardField| fields@.contains(field),
            decreases fields.len() - i,
        {
            if fields[i].has_name(wanted.as_slice()) {
                assert(field_name(fields@[i as int]) == self@.card_field);
                return true;
            }
            i += 1;
        }
        assert forall|field: ToCardField| field_name(field) != self@.card_field by {
            assert(fields@.contains(field));
            let j = choose|j: int| 0 <= j < fields@.len() && fields@[j] == field;
            assert(field_name(fields@[j]) != wanted@);
        }
        false
    }
}

} // verus!
