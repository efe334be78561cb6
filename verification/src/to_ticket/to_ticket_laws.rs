//! What reading gives back of a ticket that was written.
//!
//! Writing puts a space behind the colon of every entry and a space on
//! either side of the entry separator; reading takes nothing away. So a
//! written ticket does not read back as it was: every key but `id` comes
//! back with a space before it, and every value with a space before it and,
//! unless it is the last, one behind it. The time and the notes on the store
//! come back among the values, under keys that start with a space.

use crate::text::{all_lack, joined, lacks, lemma_cut_once_behind, lemma_joined_lacks, lemma_joined_padded, lemma_lacks_concat, lemma_pieces_of_joined, lemma_without_lacking, lemma_without_prefix, lemma_without_suffix, padded, pieces_of, without};
use crate::to_parser::parser_option::ParserOptionView;
use crate::to_ticket::to_ticket_marker::MarkerView;
use crate::to_ticket::to_ticket_option::ToTicketPrintOption;
use crate::to_ticket::to_ticket_parse::{
    content_entries, entries_in, entry_of, fields_of, first_unreadable, read_result, routed,
    stripped, Fields,
};
use crate::to_ticket::to_ticket_position::PositionView;
use crate::to_ticket::to_ticket_struct::{is_reserved_key, TicketView};
use crate::to_ticket::to_ticket_time::TimestampView;
use crate::to_ticket::to_ticket_values::{
    key_index, keys_distinct, lemma_key_index, lemma_with_entry_distinct, with_entry, Entry,
};
use crate::to_ticket::to_ticket_write::{
    framed, is_hidden_key, note_lines, print_lines, printed, value_lines,
};
use vstd::prelude::*;

verus! {

/// `s` holds no square bracket and no bar.
pub open spec fn is_plain(s: Seq<char>) -> bool {
    lacks(s, '[') && lacks(s, ']') && lacks(s, '|')
}

/// The ticket can be written in the standard format and read again without
/// a part of it being taken for a delimiter or a separator: its id, its
/// values, the text of its time and the notes on its store hold no square
/// bracket and no bar, and its keys hold no colon.
pub open spec fn writes_cleanly(ticket: TicketView, updated_text: Seq<char>) -> bool {
    &&& is_plain(ticket.ticket_id)
    &&& is_plain(updated_text)
    &&& ticket.store_url is Some ==> is_plain(ticket.store_url->0)
    &&& ticket.store_info is Some ==> is_plain(ticket.store_info->0)
    &&& forall|i: int|
        0 <= i < ticket.values.len() ==> {
            &&& is_plain((#[trigger] ticket.values[i]).0)
            &&& lacks(ticket.values[i].0, ':')
            &&& is_plain(ticket.values[i].1)
        }
}

/// The values that are written: those whose key is not hidden, in order.
pub open spec fn written_values(values: Seq<Entry>) -> Seq<Entry>
    decreases values.len(),
{
    if values.len() == 0 {
        Seq::<Entry>::empty()
    } else {
        let before = written_values(values.drop_last());
        if is_hidden_key(values.last().0) {
            before
        } else {
            before.push(values.last())
        }
    }
}

/// The note on the store as a label and a text, where it is written.
pub open spec fn written_note(wanted: bool, label: Seq<char>, note: Option<Seq<char>>) -> Seq<
    Entry,
> {
    match note {
        Some(text) => if wanted && text.len() > 0 {
            seq![(label, text)]
        } else {
            Seq::<Entry>::empty()
        },
        None => Seq::<Entry>::empty(),
    }
}

/// What is written of a ticket, as labels and texts: the id under `id`,
/// and, unless the id alone is asked for, the values under their keys, the
/// time under `updated`, and the notes on the store.
pub open spec fn written_pairs(
    ticket: TicketView,
    option: ToTicketPrintOption,
    updated_text: Seq<char>,
) -> Seq<Entry> {
    let first = seq![("id"@, ticket.ticket_id)];
    if option.minimal {
        first
    } else {
        first + written_values(ticket.values) + (if option.include_updated {
            seq![("updated"@, updated_text)]
        } else {
            Seq::<Entry>::empty()
        }) + written_note(option.include_store_info, "store_info"@, ticket.store_url)
            + written_note(option.include_store_id, "store_id"@, ticket.store_info)
    }
}

/// What is read of labels and texts that were written: the first label as
/// it is, every other with a space before it; every text with a space
/// before it and, unless it is the last, one behind it.
pub open spec fn read_back(pairs: Seq<Entry>, first_pad: Seq<char>) -> Seq<Entry>
    decreases pairs.len(),
{
    if pairs.len() == 0 {
        Seq::<Entry>::empty()
    } else if pairs.len() == 1 {
        seq![(first_pad + pairs[0].0, seq![' '] + pairs[0].1)]
    } else {
        seq![(first_pad + pairs[0].0, seq![' '] + pairs[0].1 + seq![' '])] + read_back(
            pairs.drop_first(),
            seq![' '],
        )
    }
}

/// The lines of labels and texts: the label, a colon and a space, and the
/// text.
pub open spec fn lines_of_pairs(pairs: Seq<Entry>) -> Seq<Seq<char>> {
    Seq::new(pairs.len(), |i: int| pairs[i].0 + seq![':', ' '] + pairs[i].1)
}

/// Every label lacks the colon, and every label and text is plain.
pub open spec fn pairs_clean(pairs: Seq<Entry>) -> bool {
    forall|i: int|
        0 <= i < pairs.len() ==> {
            &&& is_plain((#[trigger] pairs[i]).0)
            &&& lacks(pairs[i].0, ':')
            &&& is_plain(pairs[i].1)
        }
}

/// The lines of the values are the lines of the values that are written.
proof fn lemma_value_lines(values: Seq<Entry>)
    ensures
        value_lines(values) == lines_of_pairs(written_values(values)),
    decreases values.len(),
{
    reveal_strlit(": ");
    assert(": "@ =~= seq![':', ' ']);
    if values.len() > 0 {
        lemma_value_lines(values.drop_last());
        let before = written_values(values.drop_last());
        if !is_hidden_key(values.last().0) {
            assert(lines_of_pairs(before.push(values.last())) =~= lines_of_pairs(before).push(
                values.last().0 + ": "@ + values.last().1,
            ));
        }
    } else {
        assert(value_lines(values) =~= lines_of_pairs(written_values(values)));
    }
}

/// The line of a note is the line of the note that is written.
proof fn lemma_note_lines(wanted: bool, label: Seq<char>, note: Option<Seq<char>>)
    ensures
        note_lines(wanted, label + seq![':', ' '], note) == lines_of_pairs(
            written_note(wanted, label, note),
        ),
{
    assert(note_lines(wanted, label + seq![':', ' '], note) =~= lines_of_pairs(
        written_note(wanted, label, note),
    ));
}

/// The lines of a ticket are the lines of what is written of it.
pub proof fn lemma_print_lines(
    ticket: TicketView,
    option: ToTicketPrintOption,
    updated_text: Seq<char>,
)
    ensures
        print_lines(ticket, option, updated_text) == lines_of_pairs(
            written_pairs(ticket, option, updated_text),
        ),
{
    reveal_strlit("id");
    reveal_strlit("id: ");
    reveal_strlit("updated");
    reveal_strlit("updated: ");
    reveal_strlit("store_info");
    reveal_strlit("store_info: ");
    reveal_strlit("store_id");
    reveal_strlit("store_id: ");
    let colon = seq![':', ' '];
    assert("id: "@ =~= "id"@ + colon);
    assert("updated: "@ =~= "updated"@ + colon);
    assert("store_info: "@ =~= "store_info"@ + colon);
    assert("store_id: "@ =~= "store_id"@ + colon);
    lemma_value_lines(ticket.values);
    lemma_note_lines(option.include_store_info, "store_info"@, ticket.store_url);
    lemma_note_lines(option.include_store_id, "store_id"@, ticket.store_info);
    let first = seq![("id"@, ticket.ticket_id)];
    assert(lines_of_pairs(first) =~= seq!["id: "@ + ticket.ticket_id]);
    if !option.minimal {
        let stamp = if option.include_updated {
            seq![("updated"@, updated_text)]
        } else {
            Seq::<Entry>::empty()
        };
        assert(lines_of_pairs(stamp) =~= (if option.include_updated {
            seq!["updated: "@ + updated_text]
        } else {
            Seq::<Seq<char>>::empty()
        }));
        let a = written_values(ticket.values);
        let c = written_note(option.include_store_info, "store_info"@, ticket.store_url);
        let d = written_note(option.include_store_id, "store_id"@, ticket.store_info);
        assert(lines_of_pairs(first + a + stamp + c + d) =~= lines_of_pairs(first) + lines_of_pairs(
            a,
        ) + lines_of_pairs(stamp) + lines_of_pairs(c) + lines_of_pairs(d));
    }
}

/// Every line of clean labels and texts lacks `c`, where `c` is a square
/// bracket or the bar.
proof fn lemma_lines_lack(pairs: Seq<Entry>, c: char)
    requires
        pairs_clean(pairs),
        c == '[' || c == ']' || c == '|',
    ensures
        all_lack(lines_of_pairs(pairs), c),
{
    let lines = lines_of_pairs(pairs);
    assert forall|k: int| 0 <= k < lines.len() implies lacks(#[trigger] lines[k], c) by {
        let pair = pairs[k];
        assert(is_plain(pair.0) && is_plain(pair.1));
        lemma_lacks_concat(pair.0, seq![':', ' '], c);
        lemma_lacks_concat(pair.0 + seq![':', ' '], pair.1, c);
    }
}

/// Between the delimiters of the standard format stands what was put
/// there, where it holds no square bracket.
proof fn lemma_stripped_framed(lines: Seq<Seq<char>>)
    requires
        all_lack(lines, '['),
        all_lack(lines, ']'),
    ensures
        stripped(framed(lines, MarkerView::standard()), MarkerView::standard()) == joined(
            lines,
            seq![' ', '|', ' '],
        ),
{
    reveal_strlit("[[");
    reveal_strlit("]]");
    reveal_strlit("|");
    reveal_strlit(" ");
    let marker = MarkerView::standard();
    let left = marker.left_marker;
    let right = marker.right_marker;
    let wide = seq![' ', '|', ' '];
    assert(" "@ + marker.value_entry_separator + " "@ =~= wide);
    let body = joined(lines, wide);
    let text = framed(lines, marker);
    assert(text =~= left + (body + right));
    lemma_joined_lacks(lines, wide, '[');
    lemma_joined_lacks(lines, wide, ']');
    lemma_lacks_concat(body, right, '[');
    lemma_without_prefix(left, body + right);
    lemma_without_lacking(body + right, left);
    lemma_without_suffix(body, right);
}

/// Cut at the bar, what was joined comes back with its padding.
proof fn lemma_pieces_of_body(lines: Seq<Seq<char>>)
    requires
        lines.len() > 0,
        all_lack(lines, '|'),
    ensures
        pieces_of(joined(lines, seq![' ', '|', ' ']), seq!['|']) == padded(
            lines,
            Seq::<char>::empty(),
        ),
{
    let empty = Seq::<char>::empty();
    let bar = seq!['|'];
    lemma_joined_padded(lines, empty, bar);
    assert(seq![' '] + bar + seq![' '] =~= seq![' ', '|', ' ']);
    assert(empty + joined(lines, seq![' ', '|', ' ']) =~= joined(lines, seq![' ', '|', ' ']));
    lemma_padded_lack(lines, empty, '|');
    lemma_pieces_of_joined(padded(lines, empty), bar);
}

/// What the pieces and the first padding lack, the padded pieces lack,
/// where it is no space.
proof fn lemma_padded_lack(lines: Seq<Seq<char>>, first_pad: Seq<char>, c: char)
    requires
        all_lack(lines, c),
        lacks(first_pad, c),
        c != ' ',
    ensures
        all_lack(padded(lines, first_pad), c),
    decreases lines.len(),
{
    let space = seq![' '];
    if lines.len() == 1 {
        lemma_lacks_concat(first_pad, lines[0], c);
    } else if lines.len() >= 2 {
        let others = lines.drop_first();
        assert forall|k: int| 0 <= k < others.len() implies lacks(#[trigger] others[k], c) by {
            assert(others[k] == lines[k + 1]);
        }
        lemma_padded_lack(others, space, c);
        lemma_lacks_concat(first_pad, lines[0], c);
        lemma_lacks_concat(first_pad + lines[0], space, c);
        let these = padded(lines, first_pad);
        assert forall|k: int| 0 <= k < these.len() implies lacks(#[trigger] these[k], c) by {
            if k > 0 {
                assert(these[k] == padded(others, space)[k - 1]);
            }
        }
    }
}

/// The entries of a piece and more pieces are the entry of the piece and
/// the entries of the others.
proof fn lemma_entries_in_cons(piece: Seq<char>, others: Seq<Seq<char>>, value_separator: Seq<char>)
    ensures
        entries_in(seq![piece] + others, value_separator) == (match entry_of(
            piece,
            value_separator,
        ) {
            Some(entry) => seq![entry],
            None => Seq::<Entry>::empty(),
        }) + entries_in(others, value_separator),
    decreases others.len(),
{
    let all = seq![piece] + others;
    let head = match entry_of(piece, value_separator) {
        Some(entry) => seq![entry],
        None => Seq::<Entry>::empty(),
    };
    if others.len() == 0 {
        assert(all =~= seq![piece]);
        assert(all.drop_last() =~= Seq::<Seq<char>>::empty());
        assert(entries_in(all.drop_last(), value_separator) =~= Seq::<Entry>::empty());
        assert(entries_in(all, value_separator) =~= head + entries_in(others, value_separator));
    } else {
        lemma_entries_in_cons(piece, others.drop_last(), value_separator);
        assert(all.drop_last() =~= seq![piece] + others.drop_last());
        assert(all.last() == others.last());
        assert(entries_in(all, value_separator) =~= head + entries_in(others, value_separator));
    }
}

/// Read at the colon, the padded lines of clean labels and texts give the
/// labels and texts with their padding.
proof fn lemma_entries_of_padded(pairs: Seq<Entry>, first_pad: Seq<char>)
    requires
        pairs.len() > 0,
        pairs_clean(pairs),
        lacks(first_pad, ':'),
        first_pad.len() > 0 || pairs[0].0.len() > 0,
    ensures
        entries_in(padded(lines_of_pairs(pairs), first_pad), seq![':']) == read_back(
            pairs,
            first_pad,
        ),
    decreases pairs.len(),
{
    let colon = seq![':'];
    let space = seq![' '];
    let lines = lines_of_pairs(pairs);
    let (label, text) = pairs[0];
    let key = first_pad + label;
    assert(lacks(label, ':'));
    lemma_lacks_concat(first_pad, label, ':');
    if pairs.len() == 1 {
        let value = space + text;
        let piece = first_pad + lines[0];
        assert(piece =~= key + colon + value);
        lemma_cut_once_behind(key, colon, value);
        assert(padded(lines, first_pad) =~= seq![piece] + Seq::<Seq<char>>::empty());
        lemma_entries_in_cons(piece, Seq::<Seq<char>>::empty(), colon);
        assert(entries_in(Seq::<Seq<char>>::empty(), colon) =~= Seq::<Entry>::empty());
        assert(entries_in(padded(lines, first_pad), colon) =~= read_back(pairs, first_pad));
    } else {
        let value = space + text + space;
        let piece = first_pad + lines[0] + space;
        assert(piece =~= key + colon + value);
        lemma_cut_once_behind(key, colon, value);
        let others = pairs.drop_first();
        assert(lines.drop_first() =~= lines_of_pairs(others));
        assert forall|i: int| 0 <= i < others.len() implies {
            &&& is_plain((#[trigger] others[i]).0)
            &&& lacks(others[i].0, ':')
            &&& is_plain(others[i].1)
        } by {
            assert(others[i] == pairs[i + 1]);
        }
        lemma_entries_of_padded(others, space);
        let later = padded(lines_of_pairs(others), space);
        assert(padded(lines, first_pad) =~= seq![piece] + later);
        lemma_entries_in_cons(piece, later, colon);
        assert(entries_in(padded(lines, first_pad), colon) =~= read_back(pairs, first_pad));
    }
}

/// Every key starts with a space.
pub open spec fn keys_spaced(entries: Seq<Entry>) -> bool {
    forall|j: int|
        0 <= j < entries.len() ==> (#[trigger] entries[j]).0.len() > 0 && entries[j].0[0] == ' '
}

/// An `id` entry and entries whose keys start with a space and differ fill
/// the id of the ticket and its values, and nothing else.
proof fn lemma_fields_of_spaced(head: Entry, rest: Seq<Entry>)
    requires
        head.0 == "id"@,
        keys_spaced(rest),
        keys_distinct(rest),
    ensures
        fields_of(seq![head] + rest) == (Fields {
            ticket_id: Some(head.1),
            values: rest,
            updated: Seq::<Seq<char>>::empty(),
            store_url: None,
            store_info: None,
        }),
    decreases rest.len(),
{
    reveal_strlit("id");
    reveal_strlit("updated");
    reveal_strlit("store_id");
    reveal_strlit("store_info");
    let all = seq![head] + rest;
    if rest.len() == 0 {
        let none = Seq::<Entry>::empty();
        assert(all.drop_last() =~= none);
        assert(all.last() == head);
        assert(fields_of(none).ticket_id is None);
        assert(fields_of(all) == routed(fields_of(none), head));
        assert(fields_of(all).values =~= rest);
    } else {
        let fewer = rest.drop_last();
        let (key, value) = rest.last();
        assert forall|j: int| 0 <= j < fewer.len() implies (#[trigger] fewer[j]).0.len() > 0
            && fewer[j].0[0] == ' ' by {
            assert(fewer[j] == rest[j]);
        }
        assert forall|i: int, j: int| 0 <= i < j < fewer.len() implies (#[trigger] fewer[i]).0 != (
        #[trigger] fewer[j]).0 by {
            assert(fewer[i] == rest[i] && fewer[j] == rest[j]);
        }
        lemma_fields_of_spaced(head, fewer);
        assert(all.drop_last() =~= seq![head] + fewer);
        assert(all.last() == rest.last());
        assert(key[0] == ' ');
        assert(key != "id"@ && key != "updated"@ && key != "store_id"@ && key != "store_info"@);
        lemma_key_index(fewer, key);
        assert(key_index(fewer, key) is None) by {
            if key_index(fewer, key) is Some {
                let i = key_index(fewer, key)->0;
                assert(fewer[i] == rest[i]);
                assert(rest[i].0 != rest[rest.len() - 1].0);
            }
        }
        assert(with_entry(fewer, key, value) =~= rest);
    }
}

/// What is read back holds one entry for each pair, and the key of each is
/// the label with its padding before it.
proof fn lemma_read_back_keys(pairs: Seq<Entry>, first_pad: Seq<char>)
    ensures
        read_back(pairs, first_pad).len() == pairs.len(),
        forall|i: int|
            0 <= i < pairs.len() ==> (#[trigger] read_back(pairs, first_pad)[i]).0 == (if i == 0 {
                first_pad
            } else {
                seq![' ']
            }) + pairs[i].0,
    decreases pairs.len(),
{
    if pairs.len() >= 2 {
        let others = pairs.drop_first();
        lemma_read_back_keys(others, seq![' ']);
        let back = read_back(pairs, first_pad);
        let later = read_back(others, seq![' ']);
        assert forall|i: int| 0 <= i < pairs.len() implies (#[trigger] back[i]).0 == (if i == 0 {
            first_pad
        } else {
            seq![' ']
        }) + pairs[i].0 by {
            if i > 0 {
                assert(back[i] == later[i - 1]);
                assert(others[i - 1] == pairs[i]);
            }
        }
    }
}

/// The values that are written are values of the ticket, and their keys
/// differ as the keys of the ticket do.
proof fn lemma_written_values(values: Seq<Entry>)
    requires
        keys_distinct(values),
    ensures
        keys_distinct(written_values(values)),
        forall|k: int|
            0 <= k < written_values(values).len() ==> exists|i: int|
                0 <= i < values.len() && values[i] == #[trigger] written_values(values)[k],
    decreases values.len(),
{
    if values.len() > 0 {
        let fewer = values.drop_last();
        assert forall|i: int, j: int| 0 <= i < j < fewer.len() implies (#[trigger] fewer[i]).0 != (
        #[trigger] fewer[j]).0 by {
            assert(fewer[i] == values[i] && fewer[j] == values[j]);
        }
        lemma_written_values(fewer);
        let before = written_values(fewer);
        let written = written_values(values);
        let last = values.last();
        assert forall|k: int| 0 <= k < written.len() implies exists|i: int|
            0 <= i < values.len() && values[i] == #[trigger] written[k] by {
            if k < before.len() {
                assert(written[k] == before[k]);
                let i = choose|i: int| 0 <= i < fewer.len() && fewer[i] == before[k];
                assert(values[i] == written[k]);
            } else {
                assert(values[values.len() - 1] == written[k]);
            }
        }
        assert forall|a: int, b: int| 0 <= a < b < written.len() implies (#[trigger] written[a]).0
            != (#[trigger] written[b]).0 by {
            assert(written[a] == before[a]);
            if b < before.len() {
                assert(written[b] == before[b]);
            } else {
                let i = choose|i: int| 0 <= i < fewer.len() && fewer[i] == before[a];
                assert(values[i].0 != values[values.len() - 1].0);
            }
        }
    }
}

/// What is written of a ticket that writes cleanly is clean, and its labels
/// differ.
proof fn lemma_written_pairs(
    ticket: TicketView,
    option: ToTicketPrintOption,
    updated_text: Seq<char>,
)
    requires
        ticket.wf(),
        writes_cleanly(ticket, updated_text),
    ensures
        pairs_clean(written_pairs(ticket, option, updated_text)),
        keys_distinct(written_pairs(ticket, option, updated_text)),
        written_pairs(ticket, option, updated_text).len() > 0,
        written_pairs(ticket, option, updated_text)[0] == ("id"@, ticket.ticket_id),
{
    reveal_strlit("id");
    reveal_strlit("updated");
    reveal_strlit("store_id");
    reveal_strlit("store_info");
    let pairs = written_pairs(ticket, option, updated_text);
    let first = seq![("id"@, ticket.ticket_id)];
    let written = written_values(ticket.values);
    let stamp = if option.include_updated {
        seq![("updated"@, updated_text)]
    } else {
        Seq::<Entry>::empty()
    };
    let url = written_note(option.include_store_info, "store_info"@, ticket.store_url);
    let info = written_note(option.include_store_id, "store_id"@, ticket.store_info);
    lemma_written_values(ticket.values);
    assert(is_plain("id"@) && lacks("id"@, ':'));
    assert(is_plain("updated"@) && lacks("updated"@, ':'));
    assert(is_plain("store_id"@) && lacks("store_id"@, ':'));
    assert(is_plain("store_info"@) && lacks("store_info"@, ':'));
    assert forall|k: int| 0 <= k < written.len() implies {
        &&& is_plain((#[trigger] written[k]).0)
        &&& lacks(written[k].0, ':')
        &&& is_plain(written[k].1)
        &&& !is_reserved_key(written[k].0)
    } by {
        let i = choose|i: int| 0 <= i < ticket.values.len() && ticket.values[i] == written[k];
        assert(is_plain(ticket.values[i].0));
        assert(!is_reserved_key(ticket.values[i].0));
    }
    if option.minimal {
        assert(pairs =~= first);
    } else {
        let a = first.len() as int;
        let b = a + written.len();
        let c = b + stamp.len();
        let d = c + url.len();
        assert(pairs =~= first + written + stamp + url + info);
        assert forall|i: int| 0 <= i < pairs.len() implies {
            &&& is_plain((#[trigger] pairs[i]).0)
            &&& lacks(pairs[i].0, ':')
            &&& is_plain(pairs[i].1)
        } by {
            if i < a {
            } else if i < b {
                assert(pairs[i] == written[i - a]);
            } else if i < c {
                assert(pairs[i] == stamp[i - b]);
            } else if i < d {
                assert(pairs[i] == url[i - c]);
            } else {
                assert(pairs[i] == info[i - d]);
            }
        }
        assert forall|i: int, j: int| 0 <= i < j < pairs.len() implies (#[trigger] pairs[i]).0 != (
        #[trigger] pairs[j]).0 by {
            let ki = pairs[i].0;
            let kj = pairs[j].0;
            if i < a {
                assert(ki == "id"@);
            } else if i < b {
                assert(pairs[i] == written[i - a]);
            } else if i < c {
                assert(pairs[i] == stamp[i - b]);
            } else if i < d {
                assert(pairs[i] == url[i - c]);
            } else {
                assert(pairs[i] == info[i - d]);
            }
            if j < b {
                assert(pairs[j] == written[j - a]);
            } else if j < c {
                assert(pairs[j] == stamp[j - b]);
            } else if j < d {
                assert(pairs[j] == url[j - c]);
            } else {
                assert(pairs[j] == info[j - d]);
            }
        }
    }
}

/// What reading gives of a ticket that was written in the standard format:
/// never an error, and never the ticket as it was. The id comes back with
/// the padding of its line. The values come back with the padding of their
/// lines, and with them, under keys that start with a space, the time and
/// the notes on the store where they were written. The time of the ticket
/// that is read is the present, and it holds no note on a store.
pub proof fn lemma_written_ticket_reads_back_padded(
    ticket: TicketView,
    option: ToTicketPrintOption,
    updated_text: Seq<char>,
    position: Option<PositionView>,
    fresh_id: Seq<char>,
    now: TimestampView,
)
    requires
        ticket.marker == MarkerView::standard(),
        ticket.wf(),
        writes_cleanly(ticket, updated_text),
    ensures
        ({
            let pairs = written_pairs(ticket, option, updated_text);
            let back = read_back(pairs, Seq::<char>::empty());
            &&& back.len() == pairs.len() > 0
            &&& back[0].0 == "id"@
            &&& read_result(
                printed(ticket, option, updated_text),
                ParserOptionView::standard(),
                position,
                fresh_id,
                now,
            ) == Ok::<TicketView, crate::to_ticket::to_ticket_error::ToTicketErrorView>(
                TicketView {
                    id: Seq::<char>::empty(),
                    ticket_id: back[0].1,
                    values: back.drop_first(),
                    updated: now,
                    store_url: None,
                    store_info: None,
                    marker: MarkerView::standard(),
                    position,
                },
            )
        }),
{
    reveal_strlit("|");
    reveal_strlit(":");
    reveal_strlit("id");
    let empty = Seq::<char>::empty();
    let marker = MarkerView::standard();
    let pairs = written_pairs(ticket, option, updated_text);
    let lines = lines_of_pairs(pairs);
    let back = read_back(pairs, empty);
    lemma_written_pairs(ticket, option, updated_text);
    lemma_print_lines(ticket, option, updated_text);
    lemma_lines_lack(pairs, '[');
    lemma_lines_lack(pairs, ']');
    lemma_lines_lack(pairs, '|');
    lemma_stripped_framed(lines);
    lemma_pieces_of_body(lines);
    assert(marker.value_entry_separator =~= seq!['|']);
    assert(marker.value_separator =~= seq![':']);
    assert("id"@.len() > 0);
    lemma_entries_of_padded(pairs, empty);
    let text = printed(ticket, option, updated_text);
    assert(content_entries(text, marker) == back);
    lemma_read_back_keys(pairs, empty);
    assert(back[0].0 =~= "id"@);
    let rest = back.drop_first();
    assert(back =~= seq![back[0]] + rest);
    assert forall|j: int| 0 <= j < rest.len() implies (#[trigger] rest[j]).0.len() > 0
        && rest[j].0[0] == ' ' by {
        assert(rest[j] == back[j + 1]);
    }
    assert forall|i: int, j: int| 0 <= i < j < rest.len() implies (#[trigger] rest[i]).0 != (
    #[trigger] rest[j]).0 by {
        assert(rest[i] == back[i + 1] && rest[j] == back[j + 1]);
        assert(pairs[i + 1].0 != pairs[j + 1].0);
        if rest[i].0 == rest[j].0 {
            assert((seq![' '] + pairs[i + 1].0).drop_first() =~= pairs[i + 1].0);
            assert((seq![' '] + pairs[j + 1].0).drop_first() =~= pairs[j + 1].0);
        }
    }
    lemma_fields_of_spaced(back[0], rest);
    assert(first_unreadable(Seq::<Seq<char>>::empty(), ParserOptionView::standard().date_format) is None);
}

/// No key of `entries` is reserved.
pub open spec fn keys_free(entries: Seq<Entry>) -> bool {
    forall|i: int| 0 <= i < entries.len() ==> !is_reserved_key(#[trigger] entries[i].0)
}

/// Giving a free key a value keeps the keys free.
proof fn lemma_with_entry_free(entries: Seq<Entry>, key: Seq<char>, value: Seq<char>)
    requires
        keys_free(entries),
        !is_reserved_key(key),
    ensures
        keys_free(with_entry(entries, key, value)),
{
    lemma_key_index(entries, key);
    let after = with_entry(entries, key, value);
    assert forall|i: int| 0 <= i < after.len() implies !is_reserved_key(#[trigger] after[i].0) by {
        if i < entries.len() {
            if after[i] != entries[i] {
                assert(after[i].0 == key);
            }
        }
    }
}

/// Whatever the entries of a marker are, the values that they fill hold no
/// key twice and no reserved key: what is said under `id`, `updated`,
/// `store_id` and `store_info` goes to the fields of the ticket alone.
pub proof fn lemma_read_values_are_free(entries: Seq<Entry>)
    ensures
        keys_distinct(fields_of(entries).values),
        keys_free(fields_of(entries).values),
    decreases entries.len(),
{
    if entries.len() > 0 {
        let before = fields_of(entries.drop_last());
        lemma_read_values_are_free(entries.drop_last());
        let (key, value) = entries.last();
        if !is_reserved_key(key) {
            lemma_with_entry_distinct(before.values, key, value);
            lemma_with_entry_free(before.values, key, value);
        }
    }
}

/// A ticket that was read keeps what tickets are to keep: among its values
/// no key stands twice and none is reserved; and it has an id unless the
/// marker gave it an empty one.
pub proof fn lemma_read_ticket_is_sound(
    content: Seq<char>,
    option: ParserOptionView,
    position: Option<PositionView>,
    fresh_id: Seq<char>,
    now: TimestampView,
)
    requires
        fresh_id.len() > 0,
    ensures
        match read_result(content, option, position, fresh_id, now) {
            Ok(ticket) => {
                &&& keys_distinct(ticket.values)
                &&& keys_free(ticket.values)
                &&& ticket.wf() <==> fields_of(content_entries(content, option.marker)).ticket_id
                    != Some(Seq::<char>::empty())
            },
            Err(_) => true,
        },
{
    let fields = fields_of(content_entries(content, option.marker));
    lemma_read_values_are_free(content_entries(content, option.marker));
    match fields.ticket_id {
        Some(id) => {
            if id.len() == 0 {
                assert(id =~= Seq::<char>::empty());
            }
        },
        None => {},
    }
}

} // verus!
