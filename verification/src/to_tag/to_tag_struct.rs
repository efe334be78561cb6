//! The tag, read from a ticket and written as a marker.

use crate::text::{chars_of, join, joined, push_range, remove_all, string_of, views, without};
use crate::to_parser::parser::{is_reading, marks_of, read_error, scan, scanned, MarkView};
use crate::to_ticket::to_ticket_parse::{content_entries, fields_of, reads_as};
use crate::to_ticket::to_ticket_time::{valid_timestamp, TimestampView};
use crate::utils::id_generator::is_fresh_id;
use crate::to_parser::parser_option::{ParserOptionView, ToParserOption};
use crate::to_ticket::to_ticket_error::ToTicketError;
use crate::to_ticket::to_ticket_marker::{MarkerView, ToMarker};
use crate::to_ticket::to_ticket_struct::{clone_option, option_view, TicketView, ToTicket};
use crate::to_ticket::to_ticket_values::{values_entry, values_len, Entry};
use vstd::prelude::*;
use vstd::std_specs::convert::FromSpecImpl;

verus! {

/// A tag as plain values.
pub struct TagView {
    pub key: Seq<char>,
    pub value: Option<Seq<char>>,
    pub note: Option<Seq<char>>,
}

/// A marker read as a tag: the first key of its ticket is the key of the
/// tag, the second its value, and the keys after that its note.
pub struct ToTag {
    pub key: String,
    pub value: Option<String>,
    pub note: Option<String>,
}

impl View for ToTag {
    type V = TagView;

    open spec fn view(&self) -> TagView {
        TagView { key: self.key@, value: option_view(self.value), note: option_view(self.note) }
    }
}

impl Clone for ToTag {
    fn clone(&self) -> (copy: Self)
        ensures
            copy@ == self@,
    {
        ToTag {
            key: self.key.clone(),
            value: clone_option(&self.value),
            note: clone_option(&self.note),
        }
    }
}

/// The keys of the entries, in order.
pub open spec fn keys_of(values: Seq<Entry>) -> Seq<Seq<char>> {
    Seq::new(values.len(), |i: int| values[i].0)
}

/// The tag that the keys make: the first is the key, the second the value,
/// and the rest, with a comma and a space between them, the note.
pub open spec fn tag_of_keys(keys: Seq<Seq<char>>) -> TagView {
    TagView {
        key: if keys.len() >= 1 {
            keys[0]
        } else {
            Seq::<char>::empty()
        },
        value: if keys.len() >= 2 {
            Some(keys[1])
        } else {
            None
        },
        note: if keys.len() >= 3 {
            Some(joined(keys.subrange(2, keys.len() as int), ", "@))
        } else {
            None
        },
    }
}

/// The tag of a ticket.
pub open spec fn tag_of(ticket: TicketView) -> TagView {
    tag_of_keys(keys_of(ticket.values))
}

/// The parts of a tag that are written: the key, then the value and the
/// note where there are any.
pub open spec fn tag_parts(tag: TagView) -> Seq<Seq<char>> {
    seq![tag.key] + (match tag.value {
        Some(value) => seq![value],
        None => Seq::<Seq<char>>::empty(),
    }) + (match tag.note {
        Some(note) => seq![note],
        None => Seq::<Seq<char>>::empty(),
    })
}

/// The tag as a marker: its parts between the delimiters, with the entry
/// separator between them.
pub open spec fn tag_text(tag: TagView, marker: MarkerView) -> Seq<char> {
    marker.left_marker + joined(tag_parts(tag), marker.value_entry_separator)
        + marker.right_marker
}

/// The text without the markers of the tags: the marker of each tag, as the
/// standard format writes it, is taken out wherever it stands, one tag
/// after the other.
pub open spec fn cleaned(text: Seq<char>, tags: Seq<TagView>) -> Seq<char>
    decreases tags.len(),
{
    if tags.len() == 0 {
        text
    } else {
        without(cleaned(text, tags.drop_last()), tag_text(tags.last(), MarkerView::standard()))
    }
}

/// The tag of one marker: the tag of the ticket that is read from it.
pub open spec fn mark_tag(mark: MarkView) -> TagView {
    tag_of_keys(keys_of(fields_of(content_entries(mark.content, MarkerView::standard())).values))
}

/// The tags of the markers of a text in the standard format, in the order of
/// the markers.
pub open spec fn text_tags(text: Seq<char>) -> Seq<TagView> {
    let marks = marks_of(text, MarkerView::standard());
    Seq::new(marks.len(), |k: int| mark_tag(marks[k]))
}

/// A ticket that was read from a marker holds the values of the marker, and
/// the marker could be read.
pub proof fn lemma_reading(ticket: ToTicket, mark: MarkView, option: ParserOptionView)
    requires
        is_reading(ticket, mark, option),
    ensures
        ticket@.values == fields_of(content_entries(mark.content, option.marker)).values,
        ticket@.position == Some(mark.position),
        read_error(mark.content, option) is None,
{
    let (fresh_id, now) = choose|fresh_id: Seq<char>, now: TimestampView|
        {
            &&& is_fresh_id(fresh_id, 5)
            &&& valid_timestamp(now.secs, now.nanos)
            &&& #[trigger] reads_as(Ok(ticket), mark.content, option, Some(mark.position), fresh_id, now)
        };
    assert(reads_as(Ok(ticket), mark.content, option, Some(mark.position), fresh_id, now));
}

/// The views of the tags of a vector.
pub open spec fn tag_views(tags: Seq<ToTag>) -> Seq<TagView> {
    Seq::new(tags.len(), |i: int| tags[i]@)
}

impl ToTag {
    /// The tag of a ticket.
    pub fn from_ticket(to_ticket: &ToTicket) -> (tag: ToTag)
        ensures
            tag@ == tag_of(to_ticket@),
    {
        let n = values_len(&to_ticket.values);
        let ghost keys = keys_of(to_ticket@.values);
        let mut key = String::new();
        if n >= 1 {
            key = values_entry(&to_ticket.values, 0).0.clone();
        }
        let mut value: Option<String> = None;
        if n >= 2 {
            value = Some(values_entry(&to_ticket.values, 1).0.clone());
        }
        let mut note: Option<String> = None;
        if n >= 3 {
            let mut rest: Vec<Vec<char>> = Vec::new();
            let mut i: usize = 2;
            assert(views(rest@) =~= keys.subrange(2, 2));
            while i < n
                invariant
                    2 <= i <= n == to_ticket@.values.len(),
                    keys == keys_of(to_ticket@.values),
                    views(rest@) == keys.subrange(2, i as int),
                decreases n - i,
            {
                let ghost before = views(rest@);
                let name = chars_of(values_entry(&to_ticket.values, i).0.as_str());
                rest.push(name);
                assert(views(rest@) =~= before.push(keys[i as int]));
                assert(keys.subrange(2, i + 1) =~= keys.subrange(2, i as int).push(keys[i as int]));
                i += 1;
            }
            let comma = chars_of(", ");
            let text = join(&rest, comma.as_slice());
            note = Some(string_of(text.as_slice()));
        }
        ToTag { key, value, note }
    }

    /// The tag as a marker, in the format `to_mark` or, without one, in the
    /// standard format.
    pub fn print_tag(&self, to_mark: Option<ToMarker>) -> (text: String)
        ensures
            text@ == tag_text(
                self@,
                match to_mark {
                    Some(marker) => marker@,
                    None => MarkerView::standard(),
                },
            ),
    {
        let to_marker = match to_mark {
            Some(marker) => marker,
            None => ToMarker::default(),
        };
        let mut parts: Vec<Vec<char>> = Vec::new();
        parts.push(chars_of(self.key.as_str()));
        assert(views(parts@) =~= seq![self@.key]);
        match &self.value {
            Some(value) => {
                let ghost before = views(parts@);
                parts.push(chars_of(value.as_str()));
                assert(views(parts@) =~= before + seq![value@]);
            },
            None => {
                assert(views(parts@) =~= views(parts@) + Seq::<Seq<char>>::empty());
            },
        }
        match &self.note {
            Some(note) => {
                let ghost before = views(parts@);
                parts.push(chars_of(note.as_str()));
                assert(views(parts@) =~= before + seq![note@]);
            },
            None => {
                assert(views(parts@) =~= views(parts@) + Seq::<Seq<char>>::empty());
            },
        }
        let separator = chars_of(to_marker.value_entry_separator.as_str());
        let body = join(&parts, separator.as_slice());
        let mut out = chars_of(to_marker.left_marker.as_str());
        push_range(&mut out, body.as_slice(), 0, body.len());
        let end = chars_of(to_marker.right_marker.as_str());
        push_range(&mut out, end.as_slice(), 0, end.len());
        proof {
            assert(body@.subrange(0, body@.len() as int) =~= body@);
            assert(end@.subrange(0, end@.len() as int) =~= end@);
        }
        string_of(out.as_slice())
    }

    /// The tags of `text`, one for each marker in the standard format, and
    /// the text without the markers of these tags. Fails as scanning for
    /// tickets does: with the error of the first marker that cannot be read.
    pub fn scan_text_for_tags(text: &str) -> (found: Result<(String, Vec<ToTag>), ToTicketError>)
        ensures
            match found {
                Ok((clean, tags)) => {
                    &&& tag_views(tags@) == text_tags(text@)
                    &&& clean@ == cleaned(text@, text_tags(text@))
                    &&& forall|k: int|
                        0 <= k < marks_of(text@, MarkerView::standard()).len() ==> read_error(
                            #[trigger] marks_of(text@, MarkerView::standard())[k].content,
                            ParserOptionView::standard(),
                        ) is None
                },
                Err(error) => scanned(Err(error), text@, ParserOptionView::standard()),
            },
    {
        let option = ToParserOption::default();
        proof {
            crate::to_ticket::to_ticket_marker::lemma_standard_marker_wf();
        }
        let all_tickets = match scan(text, &option) {
            Ok(tickets) => tickets,
            Err(error) => {
                return Err(error);
            },
        };
        let ghost marks = marks_of(text@, MarkerView::standard());
        let ghost wanted = text_tags(text@);
        proof {
            assert forall|k: int| 0 <= k < marks.len() implies read_error(
                #[trigger] marks[k].content,
                ParserOptionView::standard(),
            ) is None by {
                assert(is_reading(all_tickets@[k], marks[k], option@));
                lemma_reading(all_tickets@[k], marks[k], option@);
            }
        }
        let mut tags: Vec<ToTag> = Vec::new();
        let mut clean = chars_of(text);
        let mut i: usize = 0;
        assert(tag_views(tags@) =~= wanted.subrange(0, 0));
        while i < all_tickets.len()
            invariant
                i <= all_tickets.len() == marks.len(),
                marks == marks_of(text@, MarkerView::standard()),
                wanted == text_tags(text@),
                option@ == ParserOptionView::standard(),
                forall|k: int|
                    0 <= k < marks.len() ==> #[trigger] is_reading(
                        all_tickets@[k],
                        marks[k],
                        option@,
                    ),
                tag_views(tags@) == wanted.subrange(0, i as int),
                clean@ == cleaned(text@, tag_views(tags@)),
            decreases all_tickets.len() - i,
        {
            let tag = ToTag::from_ticket(&all_tickets[i]);
            let marker = chars_of(tag.print_tag(None).as_str());
            let ghost before = tag_views(tags@);
            let ghost view = tag@;
            proof {
                assert(is_reading(all_tickets@[i as int], marks[i as int], option@));
                lemma_reading(all_tickets@[i as int], marks[i as int], option@);
                assert(view == wanted[i as int]);
            }
            clean = remove_all(clean.as_slice(), marker.as_slice());
            tags.push(tag);
            proof {
                assert(tag_views(tags@) =~= before.push(view));
                assert(tag_views(tags@).drop_last() =~= before);
                assert(tag_views(tags@) =~= wanted.subrange(0, i + 1));
            }
            i += 1;
        }
        assert(wanted.subrange(0, all_tickets.len() as int) =~= wanted);
        Ok((string_of(clean.as_slice()), tags))
    }
}

impl FromSpecImpl<ToTicket> for ToTag {
    open spec fn obeys_from_spec() -> bool {
        false
    }

    open spec fn from_spec(to_ticket: ToTicket) -> ToTag {
        arbitrary()
    }
}

impl From<ToTicket> for ToTag {
    fn from(to_ticket: ToTicket) -> (tag: ToTag)
        ensures
            tag@ == tag_of(to_ticket@),
    {
        ToTag::from_ticket(&to_ticket)
    }
}

} // verus!
