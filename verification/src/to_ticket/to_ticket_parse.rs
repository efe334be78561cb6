//! Reading a ticket from the content of a marker.
//!
//! The content is cleared of delimiters, cut into pieces at the entry
//! separator, and each piece is cut once at the value separator into a key
//! and a value. The reserved keys fill the ticket's own fields; every other
//! key goes to its values.

use crate::text::{
    chars_of, cut_once, pieces_of, remove_all, same_text, split, split_once, string_of, views,
    without,
};
use crate::to_parser::parser_option::{ParserOptionView, ToParserOption};
use crate::to_ticket::to_ticket_error::{ToTicketError, ToTicketErrorView};
use crate::to_ticket::to_ticket_marker::MarkerView;
use crate::to_ticket::to_ticket_position::{PositionView, ToTicketPositionInfo};
use crate::to_ticket::to_ticket_struct::{TicketView, ToTicket};
use crate::to_ticket::to_ticket_time::{
    parsed_timestamp, valid_timestamp, TimestampView, ToTimestamp,
};
use crate::to_ticket::to_ticket_values::{values_insert, with_entry, Entry};
use crate::utils::id_generator::{generate_id, is_fresh_id};
use vstd::prelude::*;

verus! {

/// The content without any delimiter: every left delimiter is taken out,
/// then every right one.
pub open spec fn stripped(content: Seq<char>, marker: MarkerView) -> Seq<char> {
    without(without(content, marker.left_marker), marker.right_marker)
}

/// The key and the value that one piece holds. A piece that starts with the
/// value separator has no key: what follows the separator is taken for the
/// key, with an empty value. A piece that holds neither is no entry.
pub open spec fn entry_of(piece: Seq<char>, value_separator: Seq<char>) -> Option<Entry> {
    let (key, value) = cut_once(piece, value_separator);
    if key.len() > 0 {
        Some((key, value))
    } else if value.len() > 0 {
        Some((value, Seq::<char>::empty()))
    } else {
        None
    }
}

/// The entries that the pieces hold, in order.
pub open spec fn entries_in(pieces: Seq<Seq<char>>, value_separator: Seq<char>) -> Seq<Entry>
    decreases pieces.len(),
{
    if pieces.len() == 0 {
        Seq::<Entry>::empty()
    } else {
        let before = entries_in(pieces.drop_last(), value_separator);
        match entry_of(pieces.last(), value_separator) {
            Some(entry) => before.push(entry),
            None => before,
        }
    }
}

/// The entries that the content of a marker holds, in order.
pub open spec fn content_entries(content: Seq<char>, marker: MarkerView) -> Seq<Entry> {
    entries_in(
        pieces_of(stripped(content, marker), marker.value_entry_separator),
        marker.value_separator,
    )
}

/// What the entries of a marker say, sorted by where it goes in the ticket.
pub struct Fields {
    /// The value of the last `id` entry.
    pub ticket_id: Option<Seq<char>>,
    /// The entries with free keys: each key at the place where it came
    /// first, with the value that came last.
    pub values: Seq<Entry>,
    /// The values of the `updated` entries, in order.
    pub updated: Seq<Seq<char>>,
    /// The value of the last `store_id` entry.
    pub store_url: Option<Seq<char>>,
    /// The value of the last `store_info` entry.
    pub store_info: Option<Seq<char>>,
}

/// The fields after one more entry.
pub open spec fn routed(fields: Fields, entry: Entry) -> Fields {
    let (key, value) = entry;
    if key == "id"@ {
        Fields { ticket_id: Some(value), ..fields }
    } else if key == "updated"@ {
        Fields { updated: fields.updated.push(value), ..fields }
    } else if key == "store_id"@ {
        Fields { store_url: Some(value), ..fields }
    } else if key == "store_info"@ {
        Fields { store_info: Some(value), ..fields }
    } else {
        Fields { values: with_entry(fields.values, key, value), ..fields }
    }
}

/// The fields that the entries fill, taken in order.
pub open spec fn fields_of(entries: Seq<Entry>) -> Fields
    decreases entries.len(),
{
    if entries.len() == 0 {
        Fields {
            ticket_id: None,
            values: Seq::<Entry>::empty(),
            updated: Seq::<Seq<char>>::empty(),
            store_url: None,
            store_info: None,
        }
    } else {
        routed(fields_of(entries.drop_last()), entries.last())
    }
}

/// The index of the first text that is no time under `format`.
pub open spec fn first_unreadable(texts: Seq<Seq<char>>, format: Seq<char>) -> Option<int>
    decreases texts.len(),
{
    if texts.len() == 0 {
        None
    } else {
        match first_unreadable(texts.drop_last(), format) {
            Some(k) => Some(k),
            None => if parsed_timestamp(texts.last(), format) is None {
                Some(texts.len() - 1)
            } else {
                None
            },
        }
    }
}

/// What [`first_unreadable`] finds is an index of a text that is no time,
/// and every text before it is one.
pub proof fn lemma_first_unreadable(texts: Seq<Seq<char>>, format: Seq<char>)
    ensures
        match first_unreadable(texts, format) {
            Some(k) => {
                &&& 0 <= k < texts.len()
                &&& parsed_timestamp(texts[k], format) is None
                &&& forall|j: int| 0 <= j < k ==> parsed_timestamp(#[trigger] texts[j], format) is Some
            },
            None => forall|j: int|
                0 <= j < texts.len() ==> parsed_timestamp(#[trigger] texts[j], format) is Some,
        },
    decreases texts.len(),
{
    if texts.len() > 0 {
        lemma_first_unreadable(texts.drop_last(), format);
        assert forall|j: int| 0 <= j < texts.len() - 1 implies texts.drop_last()[j] == texts[j] by {}
    }
}

/// The time that `text` names under `format`.
pub open spec fn moment_of(text: Seq<char>, format: Seq<char>) -> TimestampView {
    let (secs, nanos) = parsed_timestamp(text, format)->0;
    TimestampView { secs, nanos }
}

/// What reading `content` gives where `fresh_id` is the id of a new ticket
/// and `now` the present time: the ticket, or the first `updated` value that
/// is no time. The ticket starts blank and takes from the content what the
/// content holds; it is written in the standard format, whatever format it
/// was read in.
pub open spec fn read_result(
    content: Seq<char>,
    option: ParserOptionView,
    position: Option<PositionView>,
    fresh_id: Seq<char>,
    now: TimestampView,
) -> Result<TicketView, ToTicketErrorView> {
    let fields = fields_of(content_entries(content, option.marker));
    match first_unreadable(fields.updated, option.date_format) {
        Some(k) => Err(ToTicketErrorView::MalformedTimestamp { value: fields.updated[k] }),
        None => Ok(
            TicketView {
                id: Seq::<char>::empty(),
                ticket_id: match fields.ticket_id {
                    Some(id) => id,
                    None => fresh_id,
                },
                values: fields.values,
                updated: if fields.updated.len() > 0 {
                    moment_of(fields.updated.last(), option.date_format)
                } else {
                    now
                },
                store_url: fields.store_url,
                store_info: fields.store_info,
                marker: MarkerView::standard(),
                position,
            },
        ),
    }
}

/// `read` is what reading `content` gives with `fresh_id` and `now`.
pub open spec fn reads_as(
    read: Result<ToTicket, ToTicketError>,
    content: Seq<char>,
    option: ParserOptionView,
    position: Option<PositionView>,
    fresh_id: Seq<char>,
    now: TimestampView,
) -> bool {
    match read {
        Ok(ticket) => read_result(content, option, position, fresh_id, now) == Ok::<
            TicketView,
            ToTicketErrorView,
        >(ticket@),
        Err(error) => read_result(content, option, position, fresh_id, now) == Err::<
            TicketView,
            ToTicketErrorView,
        >(error@),
    }
}

/// The view of an optional position.
pub open spec fn position_view(position: Option<ToTicketPositionInfo>) -> Option<PositionView> {
    match position {
        Some(p) => Some(p@),
        None => None,
    }
}

/// The key and the value of one piece.
fn read_entry(piece: &[char], value_separator: &[char]) -> (entry: Option<(Vec<char>, Vec<char>)>)
    ensures
        match entry {
            Some(e) => entry_of(piece@, value_separator@) == Some((e.0@, e.1@)),
            None => entry_of(piece@, value_separator@) is None,
        },
{
    let (key, value) = split_once(piece, value_separator);
    if key.len() > 0 {
        Some((key, value))
    } else if value.len() > 0 {
        Some((value, Vec::new()))
    } else {
        None
    }
}

impl ToTicket {
    /// Reads a ticket from the content of a marker, with `fresh_id` for the
    /// id where the content names none and `now` for the time where it
    /// names none.
    pub fn parse_with(
        marked_content_only: &str,
        opt: &ToParserOption,
        intext_position: Option<ToTicketPositionInfo>,
        fresh_id: String,
        now: ToTimestamp,
    ) -> (read: Result<ToTicket, ToTicketError>)
        requires
            opt@.marker.wf(),
        ensures
            reads_as(
                read,
                marked_content_only@,
                opt@,
                position_view(intext_position),
                fresh_id@,
                now@,
            ),
    {
        let left = chars_of(opt.to_marker.left_marker.as_str());
        let right = chars_of(opt.to_marker.right_marker.as_str());
        let entry_separator = chars_of(opt.to_marker.value_entry_separator.as_str());
        let value_separator = chars_of(opt.to_marker.value_separator.as_str());
        let key_id = chars_of("id");
        let key_updated = chars_of("updated");
        let key_store_id = chars_of("store_id");
        let key_store_info = chars_of("store_info");

        let content = chars_of(marked_content_only);
        let without_left = remove_all(content.as_slice(), left.as_slice());
        let clean = remove_all(without_left.as_slice(), right.as_slice());
        let pieces = split(clean.as_slice(), entry_separator.as_slice());

        let mut ticket = ToTicket::blank(fresh_id, now);
        ticket.to_intext_option = intext_position;
        let mut failed: Option<ToTicketError> = None;
        let ghost all = views(pieces@);
        let ghost mut fields = fields_of(Seq::<Entry>::empty());
        let mut i: usize = 0;
        while i < pieces.len()
            invariant
                i <= pieces.len(),
                all == views(pieces@),
                value_separator@ == opt@.marker.value_separator,
                key_id@ == "id"@,
                key_updated@ == "updated"@,
                key_store_id@ == "store_id"@,
                key_store_info@ == "store_info"@,
                fields == fields_of(entries_in(all.subrange(0, i as int), value_separator@)),
                match first_unreadable(fields.updated, opt@.date_format) {
                    Some(k) => failed is Some && failed->0@ == (
                    ToTicketErrorView::MalformedTimestamp { value: fields.updated[k] }),
                    None => failed is None,
                },
                ticket@.id == Seq::<char>::empty(),
                ticket@.ticket_id == match fields.ticket_id {
                    Some(id) => id,
                    None => fresh_id@,
                },
                ticket@.values == fields.values,
                failed is None ==> ticket@.updated == if fields.updated.len() > 0 {
                    moment_of(fields.updated.last(), opt@.date_format)
                } else {
                    now@
                },
                ticket@.store_url == fields.store_url,
                ticket@.store_info == fields.store_info,
                ticket@.marker == MarkerView::standard(),
                ticket@.position == position_view(intext_position),
            decreases pieces.len() - i,
        {
            let piece: &Vec<char> = &pieces[i];
            proof {
                assert(all.subrange(0, i + 1).drop_last() =~= all.subrange(0, i as int));
                assert(all.subrange(0, i + 1).last() == piece@);
            }
            match read_entry(piece.as_slice(), value_separator.as_slice()) {
                None => {},
                Some((key, value)) => {
                    let ghost before = entries_in(all.subrange(0, i as int), value_separator@);
                    let ghost earlier = fields.updated;
                    proof {
                        let after = before.push((key@, value@));
                        assert(after.drop_last() =~= before);
                        assert(after.last() == (key@, value@));
                        fields = routed(fields, (key@, value@));
                    }
                    let ghost texts = fields.updated;
                    if same_text(key.as_slice(), key_id.as_slice()) {
                        ticket.ticket_id = string_of(value.as_slice());
                    } else if same_text(key.as_slice(), key_updated.as_slice()) {
                        let text = string_of(value.as_slice());
                        proof {
                            lemma_first_unreadable(earlier, opt@.date_format);
                            assert(texts == earlier.push(value@));
                            assert(texts.drop_last() =~= earlier);
                            assert(texts.last() == text@);
                        }
                        match ToTimestamp::parse(text.as_str(), opt.date_format.as_str()) {
                            Some(moment) => {
                                ticket.to_updated = moment;
                            },
                            None => {
                                if failed.is_none() {
                                    failed = Some(ToTicketError::MalformedTimestamp { value: text });
                                }
                            },
                        }
                    } else if same_text(key.as_slice(), key_store_id.as_slice()) {
                        ticket.to_store_url = Some(string_of(value.as_slice()));
                    } else if same_text(key.as_slice(), key_store_info.as_slice()) {
                        ticket.to_store_info = Some(string_of(value.as_slice()));
                    } else {
                        values_insert(
                            &mut ticket.values,
                            string_of(key.as_slice()),
                            string_of(value.as_slice()),
                        );
                    }
                },
            }
            i += 1;
        }
        proof {
            assert(all.subrange(0, pieces.len() as int) =~= all);
        }
        match failed {
            Some(error) => Err(error),
            None => Ok(ticket),
        }
    }

    /// Reads a ticket from the content of a marker. Where the content names
    /// no id the ticket takes a fresh one of five characters, and where it
    /// names no time, the present one. Reading fails where the value of an
    /// `updated` entry is no time in the format of `opt`.
    pub fn parse(
        marked_content_only: &str,
        opt: &ToParserOption,
        intext_position: Option<ToTicketPositionInfo>,
    ) -> (read: Result<ToTicket, ToTicketError>)
        requires
            opt@.marker.wf(),
        ensures
            exists|fresh_id: Seq<char>, now: TimestampView|
                {
                    &&& is_fresh_id(fresh_id, 5)
                    &&& valid_timestamp(now.secs, now.nanos)
                    &&& #[trigger] reads_as(
                        read,
                        marked_content_only@,
                        opt@,
                        position_view(intext_position),
                        fresh_id,
                        now,
                    )
                },
    {
        let fresh_id = generate_id();
        let now = ToTimestamp::now();
        let ghost id = fresh_id@;
        let read = ToTicket::parse_with(marked_content_only, opt, intext_position, fresh_id, now);
        assert(reads_as(
            read,
            marked_content_only@,
            opt@,
            position_view(intext_position),
            id,
            now@,
        ));
        read
    }
}

} // verus!
