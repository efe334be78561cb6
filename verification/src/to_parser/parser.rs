//! The scanner: every marker of a text, with its place.
//!
//! A text is taken line by line. In a line, a marker starts at the first
//! left delimiter and ends with the first right delimiter that follows it;
//! the search for the next marker starts behind that. A marker never spans
//! two lines.

use crate::text::{
    chars_of, copy_range, find_from, first_index_from, lemma_first_index_from,
    lemma_utf8_len_subrange, pieces_of, split, string_of, tail, utf8_len, views,
};
use crate::to_parser::parser_option::{ParserOptionView, ToParserOption};
use crate::to_ticket::to_ticket_error::{ToTicketError, ToTicketErrorView};
use crate::to_ticket::to_ticket_marker::MarkerView;
use crate::to_ticket::to_ticket_parse::{
    content_entries, fields_of, first_unreadable, lemma_first_unreadable, reads_as,
};
use crate::to_ticket::to_ticket_position::{position_of, PositionView, ToTicketPositionInfo};
use crate::to_ticket::to_ticket_struct::ToTicket;
use crate::to_ticket::to_ticket_time::{valid_timestamp, TimestampView, ToTimestamp};
use crate::utils::id_generator::{generate_id, is_fresh_id};
use vstd::prelude::*;

verus! {

/// The text of a line: the piece between two line feeds, without the
/// carriage return that may stand before the line feed that ends it.
pub open spec fn line_of(piece: Seq<char>, ended: bool) -> Seq<char> {
    if ended && piece.len() > 0 && piece.last() == '\r' {
        piece.drop_last()
    } else {
        piece
    }
}

/// The lines of a text. A line ends with a line feed; the last line need
/// not. An empty text has no line.
pub open spec fn lines_of(text: Seq<char>) -> Seq<Seq<char>> {
    let pieces = pieces_of(text, seq!['\n']);
    let count = if pieces.last().len() == 0 {
        pieces.len() - 1
    } else {
        pieces.len() as int
    };
    Seq::new(count as nat, |k: int| line_of(pieces[k], k < pieces.len() - 1))
}

/// The markers of a line from index `from` on, each as the index where it
/// starts and the index behind its end.
pub open spec fn spans_from(line: Seq<char>, left: Seq<char>, right: Seq<char>, from: int) -> Seq<
    (int, int),
>
    decreases line.len() - from + 1,
{
    if left.len() == 0 || from < 0 {
        Seq::<(int, int)>::empty()
    } else {
        match first_index_from(line, left, from) {
            None => Seq::<(int, int)>::empty(),
            Some(start) => match first_index_from(line, right, start + left.len()) {
                None => Seq::<(int, int)>::empty(),
                Some(close) => {
                    proof {
                        lemma_first_index_from(line, left, from);
                        lemma_first_index_from(line, right, start + left.len());
                    }
                    seq![(start, close + right.len())] + spans_from(
                        line,
                        left,
                        right,
                        close + right.len(),
                    )
                },
            },
        }
    }
}

/// One marker as it stands in a text.
pub struct MarkView {
    pub position: PositionView,
    pub content: Seq<char>,
}

/// The marker that takes the span of line number `line`: its place, and as
/// its content what stands between the delimiters.
pub open spec fn mark_of(line_text: Seq<char>, line: nat, span: (int, int), marker: MarkerView)
    -> MarkView {
    MarkView {
        position: position_of(line_text, span.0, span.1, line),
        content: line_text.subrange(
            span.0 + marker.left_marker.len(),
            span.1 - marker.right_marker.len(),
        ),
    }
}

/// The markers of one line, from left to right.
pub open spec fn line_marks(line_text: Seq<char>, line: nat, marker: MarkerView) -> Seq<MarkView> {
    let spans = spans_from(line_text, marker.left_marker, marker.right_marker, 0);
    Seq::new(spans.len(), |k: int| mark_of(line_text, line, spans[k], marker))
}

/// The markers of the first `count` lines, line after line.
pub open spec fn marks_upto(lines: Seq<Seq<char>>, count: int, marker: MarkerView) -> Seq<MarkView>
    decreases count,
{
    if count <= 0 {
        Seq::<MarkView>::empty()
    } else {
        marks_upto(lines, count - 1, marker) + line_marks(
            lines[count - 1],
            (count - 1) as nat,
            marker,
        )
    }
}

/// The markers of a text: from top to bottom, and in a line from left to
/// right.
pub open spec fn marks_of(text: Seq<char>, marker: MarkerView) -> Seq<MarkView> {
    marks_upto(lines_of(text), lines_of(text).len() as int, marker)
}

/// Why the content of a marker cannot be read; `None` where it can.
pub open spec fn read_error(content: Seq<char>, option: ParserOptionView) -> Option<
    ToTicketErrorView,
> {
    let texts = fields_of(content_entries(content, option.marker)).updated;
    match first_unreadable(texts, option.date_format) {
        Some(k) => Some(ToTicketErrorView::MalformedTimestamp { value: texts[k] }),
        None => None,
    }
}

/// `ticket` is what reading the marker gives, with some fresh id and some
/// moment for the present.
pub open spec fn is_reading(ticket: ToTicket, mark: MarkView, option: ParserOptionView) -> bool {
    exists|fresh_id: Seq<char>, now: TimestampView|
        {
            &&& is_fresh_id(fresh_id, 5)
            &&& valid_timestamp(now.secs, now.nanos)
            &&& #[trigger] reads_as(
                Ok(ticket),
                mark.content,
                option,
                Some(mark.position),
                fresh_id,
                now,
            )
        }
}

/// `found` is what scanning `text` gives: one ticket for each marker, in the
/// order of the markers, or the error of the first marker that cannot be
/// read.
pub open spec fn scanned(
    found: Result<Vec<ToTicket>, ToTicketError>,
    text: Seq<char>,
    option: ParserOptionView,
) -> bool {
    let marks = marks_of(text, option.marker);
    match found {
        Ok(tickets) => {
            &&& tickets@.len() == marks.len()
            &&& forall|k: int|
                0 <= k < marks.len() ==> #[trigger] is_reading(tickets@[k], marks[k], option)
            &&& forall|k: int|
                0 <= k < marks.len() ==> read_error(#[trigger] marks[k].content, option) is None
        },
        Err(error) => exists|k: int|
            {
                &&& 0 <= k < marks.len()
                &&& #[trigger] read_error(marks[k].content, option) == Some(error@)
                &&& forall|j: int|
                    0 <= j < k ==> read_error(#[trigger] marks[j].content, option) is None
            },
    }
}

/// A marker as the scanner holds it.
pub struct ToMark {
    pub position: ToTicketPositionInfo,
    pub content: String,
}

impl View for ToMark {
    type V = MarkView;

    open spec fn view(&self) -> MarkView {
        MarkView { position: self.position@, content: self.content@ }
    }
}

/// The views of the marks of a vector.
pub open spec fn mark_views(marks: Seq<ToMark>) -> Seq<MarkView> {
    Seq::new(marks.len(), |k: int| marks[k]@)
}

/// A piece of a text takes no more bytes than the text.
pub proof fn lemma_pieces_utf8_len(s: Seq<char>, sep: Seq<char>)
    ensures
        pieces_of(s, sep).len() >= 1,
        forall|k: int|
            0 <= k < pieces_of(s, sep).len() ==> utf8_len(#[trigger] pieces_of(s, sep)[k])
                <= utf8_len(s),
    decreases s.len(),
{
    if sep.len() > 0 {
        lemma_first_index_from(s, sep, 0);
        match first_index_from(s, sep, 0) {
            None => {},
            Some(i) => {
                let rest = tail(s, i + sep.len());
                lemma_pieces_utf8_len(rest, sep);
                lemma_utf8_len_subrange(s, 0, i);
                lemma_utf8_len_subrange(s, i + sep.len(), s.len() as int);
                assert forall|k: int| 0 <= k < pieces_of(s, sep).len() implies utf8_len(
                    #[trigger] pieces_of(s, sep)[k],
                ) <= utf8_len(s) by {
                    if k > 0 {
                        assert(pieces_of(s, sep)[k] == pieces_of(rest, sep)[k - 1]);
                    }
                }
            },
        }
    }
}

/// The markers of one line, appended to `marks`.
fn scan_line(
    marks: &mut Vec<ToMark>,
    line_text: &[char],
    line: usize,
    left: &[char],
    right: &[char],
    Ghost(marker): Ghost<MarkerView>,
)
    requires
        left@.len() > 0,
        left@ == marker.left_marker,
        right@ == marker.right_marker,
        utf8_len(line_text@) <= usize::MAX,
    ensures
        mark_views(final(marks)@) == mark_views(old(marks)@) + line_marks(
            line_text@,
            line as nat,
            marker,
        ),
{
    let ghost before = mark_views(marks@);
    let ghost all = spans_from(line_text@, left@, right@, 0);
    let ghost mut done: Seq<(int, int)> = Seq::empty();
    let mut pos: usize = 0;
    assert(mark_views(marks@) =~= before + Seq::new(
        done.len(),
        |k: int| mark_of(line_text@, line as nat, done[k], marker),
    ));
    loop
        invariant
            pos <= line_text.len(),
            left@.len() > 0,
            utf8_len(line_text@) <= usize::MAX,
            before == mark_views(old(marks)@),
            all == spans_from(line_text@, left@, right@, 0),
            all == done + spans_from(line_text@, left@, right@, pos as int),
            left@ == marker.left_marker,
            right@ == marker.right_marker,
            mark_views(marks@) == before + Seq::new(
                done.len(),
                |k: int| mark_of(line_text@, line as nat, done[k], marker),
            ),
        decreases line_text.len() - pos,
    {
        proof {
            lemma_first_index_from(line_text@, left@, pos as int);
        }
        let start = match find_from(line_text, left, pos) {
            Some(start) => start,
            None => {
                assert(all =~= done);
                assert(mark_views(marks@) =~= before + line_marks(
                    line_text@,
                    line as nat,
                    marker,
                ));
                return ;
            },
        };
        proof {
            lemma_first_index_from(line_text@, right@, start + left@.len());
        }
        let close = match find_from(line_text, right, start + left.len()) {
            Some(close) => close,
            None => {
                assert(all =~= done);
                assert(mark_views(marks@) =~= before + line_marks(
                    line_text@,
                    line as nat,
                    marker,
                ));
                return ;
            },
        };
        let end: usize = close + right.len();
        proof {
            lemma_utf8_len_subrange(line_text@, 0, start as int);
        }
        let position = ToTicketPositionInfo::from_match(line_text, start, end, line);
        let inner = copy_range(line_text, start + left.len(), close);
        let ghost held = mark_views(marks@);
        marks.push(ToMark { position, content: string_of(inner.as_slice()) });
        proof {
            let span = (start as int, end as int);
            let rest = spans_from(line_text@, left@, right@, end as int);
            assert(spans_from(line_text@, left@, right@, pos as int) =~= seq![span] + rest);
            let grown = done.push(span);
            assert(all =~= grown + rest);
            assert(mark_views(marks@) =~= held.push(mark_of(line_text@, line as nat, span, marker)));
            assert(mark_views(marks@) =~= before + Seq::new(
                grown.len(),
                |k: int| mark_of(line_text@, line as nat, grown[k], marker),
            ));
            done = grown;
        }
        pos = end;
    }
}

/// The markers of `text` in the format of `left` and `right`.
fn find_marks(text: &str, left: &[char], right: &[char], Ghost(marker): Ghost<MarkerView>) -> (marks:
    Vec<ToMark>)
    requires
        left@.len() > 0,
        left@ == marker.left_marker,
        right@ == marker.right_marker,
    ensures
        mark_views(marks@) == marks_of(text@, marker),
{
    let byte_count: usize = text.as_bytes().len();
    assert(utf8_len(text@) <= usize::MAX);
    let chars = chars_of(text);
    let mut feed: Vec<char> = Vec::new();
    feed.push('\n');
    assert(feed@ =~= seq!['\n']);
    let pieces = split(chars.as_slice(), feed.as_slice());
    proof {
        lemma_pieces_utf8_len(text@, seq!['\n']);
    }
    let last: usize = pieces.len() - 1;
    let count: usize = if pieces[last].len() == 0 {
        last
    } else {
        pieces.len()
    };
    let ghost lines = lines_of(text@);
    let mut marks: Vec<ToMark> = Vec::new();
    let mut k: usize = 0;
    assert(mark_views(marks@) =~= marks_upto(lines, 0, marker));
    while k < count
        invariant
            k <= count <= pieces.len(),
            last == pieces.len() - 1,
            left@.len() > 0,
            views(pieces@) == pieces_of(text@, seq!['\n']),
            lines == lines_of(text@),
            lines.len() == count,
            utf8_len(text@) <= usize::MAX,
            forall|i: int|
                0 <= i < pieces.len() ==> utf8_len(#[trigger] pieces_of(text@, seq!['\n'])[i])
                    <= utf8_len(text@),
            left@ == marker.left_marker,
            right@ == marker.right_marker,
            mark_views(marks@) == marks_upto(lines, k as int, marker),
        decreases count - k,
    {
        let piece: &Vec<char> = &pieces[k];
        let ghost whole = pieces_of(text@, seq!['\n'])[k as int];
        assert(piece@ == whole);
        let mut end: usize = piece.len();
        if k < last && end > 0 && piece[end - 1] == '\r' {
            end = end - 1;
        }
        let line_text = vstd::slice::slice_subrange(piece.as_slice(), 0, end);
        proof {
            assert(line_text@ =~= line_of(whole, k < last));
            assert(line_text@ == lines[k as int]);
            lemma_utf8_len_subrange(whole, 0, end as int);
        }
        scan_line(&mut marks, line_text, k, left, right, Ghost(marker));
        k += 1;
    }
    marks
}

/// The scanner of texts for tickets.
pub struct ToParser {}

impl ToParser {
    /// Every marker of `text` as a ticket, in the order of the markers. Each
    /// ticket holds the place of its marker. Scanning fails with the error
    /// of the first marker that cannot be read.
    pub fn scan_text_for_tickets(text: &str, opt: ToParserOption) -> (found: Result<
        Vec<ToTicket>,
        ToTicketError,
    >)
        requires
            opt@.marker.wf(),
        ensures
            scanned(found, text@, opt@),
    {
        scan(text, &opt)
    }
}

/// Every marker of `text` as a ticket.
pub(crate) fn scan(text: &str, opt: &ToParserOption) -> (found: Result<Vec<ToTicket>, ToTicketError>)
    requires
        opt@.marker.wf(),
    ensures
        scanned(found, text@, opt@),
{
    let left = chars_of(opt.to_marker.left_marker.as_str());
    let right = chars_of(opt.to_marker.right_marker.as_str());
    let marks = find_marks(text, left.as_slice(), right.as_slice(), Ghost(opt@.marker));
    let ghost all = marks_of(text@, opt@.marker);
    let mut tickets: Vec<ToTicket> = Vec::new();
    let mut k: usize = 0;
    while k < marks.len()
        invariant
            k <= marks.len(),
            opt@.marker.wf(),
            all == marks_of(text@, opt@.marker),
            mark_views(marks@) == all,
            tickets@.len() == k,
            forall|j: int| 0 <= j < k ==> #[trigger] is_reading(tickets@[j], all[j], opt@),
            forall|j: int| 0 <= j < k ==> read_error(#[trigger] all[j].content, opt@) is None,
        decreases marks.len() - k,
    {
        let mark: &ToMark = &marks[k];
        assert(mark@ == all[k as int]);
        let position = mark.position.clone();
        let fresh_id = generate_id();
        let now = ToTimestamp::now();
        let ghost id = fresh_id@;
        let read = ToTicket::parse_with(mark.content.as_str(), opt, Some(position), fresh_id, now);
        match read {
            Ok(ticket) => {
                let ghost held = tickets@;
                assert(reads_as(
                    Ok(ticket),
                    all[k as int].content,
                    opt@,
                    Some(all[k as int].position),
                    id,
                    now@,
                ));
                assert(is_reading(ticket, all[k as int], opt@));
                proof {
                    let texts = fields_of(content_entries(all[k as int].content, opt@.marker)).updated;
                    lemma_first_unreadable(texts, opt@.date_format);
                }
                tickets.push(ticket);
                assert forall|j: int| 0 <= j < k + 1 implies #[trigger] is_reading(
                    tickets@[j],
                    all[j],
                    opt@,
                ) by {
                    if j < k {
                        assert(tickets@[j] == held[j]);
                        assert(is_reading(held[j], all[j], opt@));
                    }
                }
            },
            Err(error) => {
                assert(read_error(all[k as int].content, opt@) == Some(error@));
                return Err(error);
            },
        }
        k += 1;
    }
    Ok(tickets)
}

} // verus!
