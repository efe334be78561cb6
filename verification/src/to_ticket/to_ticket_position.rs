//! Where in a text a marker was found.

use crate::text::{copy_range, string_of, utf8_len, utf8_len_of};
use vstd::prelude::*;

verus! {

/// A position as plain values.
pub struct PositionView {
    pub line: nat,
    pub column: nat,
    pub length: nat,
    pub raw_text: Seq<char>,
}

/// The place of one marker: the line it stands in, counted from 0, the byte
/// offset in that line at which it starts, the number of its characters, and
/// its text with both delimiters.
#[derive(Debug)]
pub struct ToTicketPositionInfo {
    pub line: usize,
    pub column: usize,
    pub length: usize,
    pub raw_text: String,
}

impl View for ToTicketPositionInfo {
    type V = PositionView;

    open spec fn view(&self) -> PositionView {
        PositionView {
            line: self.line as nat,
            column: self.column as nat,
            length: self.length as nat,
            raw_text: self.raw_text@,
        }
    }
}

impl Clone for ToTicketPositionInfo {
    fn clone(&self) -> (copy: Self)
        ensures
            copy@ == self@,
    {
        ToTicketPositionInfo {
            line: self.line,
            column: self.column,
            length: self.length,
            raw_text: self.raw_text.clone(),
        }
    }
}

/// The position of the characters from `start` up to `end` of the text of
/// line number `line`. The column counts the bytes that the line takes in
/// UTF-8 before `start`; the length counts characters.
pub open spec fn position_of(line_text: Seq<char>, start: int, end: int, line: nat)
    -> PositionView {
    PositionView {
        line,
        column: utf8_len(line_text.subrange(0, start)),
        length: (end - start) as nat,
        raw_text: line_text.subrange(start, end),
    }
}

impl ToTicketPositionInfo {
    /// The position of the match that runs from character `start` up to
    /// character `end` of `line_text`.
    pub fn from_match(line_text: &[char], start: usize, end: usize, line: usize) -> (position:
        Self)
        requires
            start <= end <= line_text@.len(),
            utf8_len(line_text@.subrange(0, start as int)) <= usize::MAX,
        ensures
            position@ == position_of(line_text@, start as int, end as int, line as nat),
    {
        let raw = copy_range(line_text, start, end);
        ToTicketPositionInfo {
            line,
            column: utf8_len_of(line_text, 0, start),
            length: end - start,
            raw_text: string_of(raw.as_slice()),
        }
    }
}

} // verus!
