//! Writing a ticket as a marker.

use crate::text::{chars_of, join, joined, push_range, string_of, views};
use crate::to_ticket::to_ticket_marker::MarkerView;
use crate::to_ticket::to_ticket_option::ToTicketPrintOption;
use crate::to_ticket::to_ticket_struct::{TicketView, ToTicket};
use crate::to_ticket::to_ticket_time::{timestamp_format, timestamp_text};
use crate::to_ticket::to_ticket_values::{values_entry, values_len, Entry};
use vstd::prelude::*;

verus! {

/// `key` is the name of a field of the ticket. A value under such a key is
/// not written, so that no field is written twice.
pub open spec fn is_hidden_key(key: Seq<char>) -> bool {
    key == "to_updated"@ || key == "to_store_id"@ || key == "to_store_info"@ || key
        == "to_marker"@
}

/// The lines of the values: for each key that is not hidden, in order, the
/// key, a colon and a space, and the value.
pub open spec fn value_lines(values: Seq<Entry>) -> Seq<Seq<char>>
    decreases values.len(),
{
    if values.len() == 0 {
        Seq::<Seq<char>>::empty()
    } else {
        let before = value_lines(values.drop_last());
        let (key, value) = values.last();
        if is_hidden_key(key) {
            before
        } else {
            before.push(key + ": "@ + value)
        }
    }
}

/// The line of an optional note: none where the note is not asked for, is
/// not there or is empty.
pub open spec fn note_lines(wanted: bool, label: Seq<char>, note: Option<Seq<char>>) -> Seq<
    Seq<char>,
> {
    match note {
        Some(text) => if wanted && text.len() > 0 {
            seq![label + text]
        } else {
            Seq::<Seq<char>>::empty()
        },
        None => Seq::<Seq<char>>::empty(),
    }
}

/// The lines of a ticket whose time reads `updated_text`: the id; then,
/// unless the id alone is asked for, the values, the time, and the two notes
/// on the store. The place of storage is written under the label
/// `store_info` and the description of the store under `store_id`.
pub open spec fn print_lines(
    ticket: TicketView,
    option: ToTicketPrintOption,
    updated_text: Seq<char>,
) -> Seq<Seq<char>> {
    let first = seq!["id: "@ + ticket.ticket_id];
    if option.minimal {
        first
    } else {
        first + value_lines(ticket.values) + (if option.include_updated {
            seq!["updated: "@ + updated_text]
        } else {
            Seq::<Seq<char>>::empty()
        }) + note_lines(option.include_store_info, "store_info: "@, ticket.store_url)
            + note_lines(option.include_store_id, "store_id: "@, ticket.store_info)
    }
}

/// The lines between the delimiters of `marker`, the entry separator with a
/// space on either side between them.
pub open spec fn framed(lines: Seq<Seq<char>>, marker: MarkerView) -> Seq<char> {
    marker.left_marker + joined(lines, " "@ + marker.value_entry_separator + " "@)
        + marker.right_marker
}

/// The marker of a ticket whose time reads `updated_text`.
pub open spec fn printed(ticket: TicketView, option: ToTicketPrintOption, updated_text: Seq<char>)
    -> Seq<char> {
    framed(print_lines(ticket, option, updated_text), ticket.marker)
}

/// The marker that shows the id alone.
pub open spec fn minimal_text(ticket_id: Seq<char>, marker: MarkerView) -> Seq<char> {
    marker.left_marker + ("id: "@ + ticket_id) + marker.right_marker
}

/// The choices under which the id alone is written.
pub open spec fn minimal_option() -> ToTicketPrintOption {
    ToTicketPrintOption {
        include_updated: false,
        include_created: false,
        include_store_info: false,
        include_store_id: false,
        minimal: true,
    }
}

/// Under `minimal`, the marker shows the id alone, whatever else is asked
/// for and whatever the ticket holds.
pub proof fn lemma_minimal_print(
    ticket: TicketView,
    option: ToTicketPrintOption,
    updated_text: Seq<char>,
)
    requires
        option.minimal,
    ensures
        printed(ticket, option, updated_text) == minimal_text(ticket.ticket_id, ticket.marker),
{
}

/// In the standard format the minimal marker is `[[id: `, the id, and `]]`.
pub proof fn lemma_minimal_text_standard(ticket_id: Seq<char>)
    ensures
        minimal_text(ticket_id, MarkerView::standard()) == "[[id: "@ + ticket_id + "]]"@,
{
    reveal_strlit("[[");
    reveal_strlit("id: ");
    reveal_strlit("[[id: ");
    assert("[["@ + "id: "@ =~= "[[id: "@);
    assert(minimal_text(ticket_id, MarkerView::standard()) =~= "[[id: "@ + ticket_id + "]]"@);
}

/// The label and the text as one line.
fn labelled(label: &str, text: &[char]) -> (line: Vec<char>)
    ensures
        line@ == label@ + text@,
{
    let mut line = chars_of(label);
    push_range(&mut line, text, 0, text.len());
    assert(text@.subrange(0, text@.len() as int) =~= text@);
    line
}

/// The lines between the delimiters of the format.
pub(crate) fn frame(lines: &Vec<Vec<char>>, left: &str, separator: &str, right: &str) -> (text:
    String)
    ensures
        text@ == left@ + joined(views(lines@), " "@ + separator@ + " "@) + right@,
{
    let mut between = chars_of(" ");
    let sep = chars_of(separator);
    push_range(&mut between, sep.as_slice(), 0, sep.len());
    let space = chars_of(" ");
    push_range(&mut between, space.as_slice(), 0, space.len());
    proof {
        assert(sep@.subrange(0, sep@.len() as int) =~= sep@);
        assert(space@.subrange(0, space@.len() as int) =~= space@);
    }
    let body = join(lines, between.as_slice());
    let mut out = chars_of(left);
    push_range(&mut out, body.as_slice(), 0, body.len());
    let end = chars_of(right);
    push_range(&mut out, end.as_slice(), 0, end.len());
    proof {
        assert(body@.subrange(0, body@.len() as int) =~= body@);
        assert(end@.subrange(0, end@.len() as int) =~= end@);
    }
    string_of(out.as_slice())
}

/// Appends the line of a note on the store, where there is one to write.
fn push_note(lines: &mut Vec<Vec<char>>, wanted: bool, label: &str, note: &Option<String>)
    ensures
        views(final(lines)@) == views(old(lines)@) + note_lines(
            wanted,
            label@,
            crate::to_ticket::to_ticket_struct::option_view(*note),
        ),
{
    let ghost before = views(lines@);
    match note {
        Some(text) => {
            let chars = chars_of(text.as_str());
            if wanted && chars.len() > 0 {
                lines.push(labelled(label, chars.as_slice()));
                assert(views(lines@) =~= before + seq![label@ + text@]);
            } else {
                assert(views(lines@) =~= before + Seq::<Seq<char>>::empty());
            }
        },
        None => {
            assert(views(lines@) =~= before + Seq::<Seq<char>>::empty());
        },
    }
}

impl ToTicket {
    /// The ticket as a marker. Without choices everything is written.
    pub fn print(&self, opt: Option<ToTicketPrintOption>) -> (text: String)
        ensures
            text@ == printed(
                self@,
                match opt {
                    Some(option) => option,
                    None => ToTicketPrintOption::full(),
                },
                timestamp_text(self@.updated.secs, self@.updated.nanos, timestamp_format()),
            ),
    {
        let option = match opt {
            Some(option) => option,
            None => ToTicketPrintOption::default(),
        };
        let ghost updated_text = timestamp_text(
            self@.updated.secs,
            self@.updated.nanos,
            timestamp_format(),
        );
        let id = chars_of(self.ticket_id.as_str());
        let mut lines: Vec<Vec<char>> = Vec::new();
        lines.push(labelled("id: ", id.as_slice()));
        let ghost first = seq!["id: "@ + self@.ticket_id];
        assert(views(lines@) =~= first);
        if !option.minimal {
            let n = values_len(&self.values);
            let mut i: usize = 0;
            assert(self@.values.subrange(0, 0) =~= Seq::<Entry>::empty());
            assert(views(lines@) =~= first + value_lines(self@.values.subrange(0, 0)));
            while i < n
                invariant
                    i <= n == self@.values.len(),
                    views(lines@) == first + value_lines(self@.values.subrange(0, i as int)),
                decreases n - i,
            {
                let ghost before = views(lines@);
                let ghost done = self@.values.subrange(0, i as int);
                let (key, value) = values_entry(&self.values, i);
                let key_chars = chars_of(key.as_str());
                let hidden = crate::text::same_text(
                    key_chars.as_slice(),
                    chars_of("to_updated").as_slice(),
                ) || crate::text::same_text(
                    key_chars.as_slice(),
                    chars_of("to_store_id").as_slice(),
                ) || crate::text::same_text(
                    key_chars.as_slice(),
                    chars_of("to_store_info").as_slice(),
                ) || crate::text::same_text(
                    key_chars.as_slice(),
                    chars_of("to_marker").as_slice(),
                );
                proof {
                    let next = self@.values.subrange(0, i + 1);
                    assert(next.drop_last() =~= done);
                    assert(next.last() == (key@, value@));
                }
                if !hidden {
                    let mut line = key_chars;
                    let colon = chars_of(": ");
                    push_range(&mut line, colon.as_slice(), 0, colon.len());
                    let value_chars = chars_of(value.as_str());
                    push_range(&mut line, value_chars.as_slice(), 0, value_chars.len());
                    proof {
                        assert(colon@.subrange(0, colon@.len() as int) =~= colon@);
                        assert(value_chars@.subrange(0, value_chars@.len() as int)
                            =~= value_chars@);
                    }
                    lines.push(line);
                    assert(views(lines@) =~= before.push(key@ + ": "@ + value@));
                }
                i += 1;
            }
            assert(self@.values.subrange(0, n as int) =~= self@.values);
            if option.include_updated {
                let ghost before = views(lines@);
                let stamp = self.to_updated.format();
                let stamp_chars = chars_of(stamp.as_str());
                lines.push(labelled("updated: ", stamp_chars.as_slice()));
                assert(views(lines@) =~= before + seq!["updated: "@ + updated_text]);
            } else {
                assert(views(lines@) =~= views(lines@) + Seq::<Seq<char>>::empty());
            }
            push_note(&mut lines, option.include_store_info, "store_info: ", &self.to_store_url);
            push_note(&mut lines, option.include_store_id, "store_id: ", &self.to_store_info);
        }
        frame(
            &lines,
            self.to_marker.left_marker.as_str(),
            self.to_marker.value_entry_separator.as_str(),
            self.to_marker.right_marker.as_str(),
        )
    }

    /// The ticket as the marker that shows its id alone.
    pub fn print_minimal(&self) -> (text: String)
        ensures
            text@ == minimal_text(self@.ticket_id, self@.marker),
            self@.marker == MarkerView::standard() ==> text@ == "[[id: "@ + self@.ticket_id
                + "]]"@,
    {
        proof {
            lemma_minimal_text_standard(self@.ticket_id);
        }
        self.print(
            Some(
                ToTicketPrintOption {
                    include_updated: false,
                    include_store_info: false,
                    include_store_id: false,
                    include_created: false,
                    minimal: true,
                },
            ),
        )
    }
}

} // verus!
