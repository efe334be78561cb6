//! What the scanner finds in a text that was put together from markers.

use crate::text::{all_lack, first_index_from, joined, lacks, lemma_find_behind_gap, lemma_find_in_lacking, lemma_pieces_of_joined};
use crate::to_parser::parser::{line_marks, lines_of, mark_of, marks_of, marks_upto, spans_from, MarkView};
use crate::to_ticket::to_ticket_marker::MarkerView;
use vstd::prelude::*;

verus! {

/// A line put together from markers: a filler, then for each content the
/// left delimiter, the content, the right delimiter and one more filler.
/// There is one filler more than there are contents.
pub open spec fn marked_line(
    fillers: Seq<Seq<char>>,
    contents: Seq<Seq<char>>,
    left: Seq<char>,
    right: Seq<char>,
) -> Seq<char>
    decreases contents.len(),
{
    if fillers.len() == 0 {
        Seq::<char>::empty()
    } else if contents.len() == 0 {
        fillers[0]
    } else {
        fillers[0] + left + contents[0] + right + marked_line(
            fillers.drop_first(),
            contents.drop_first(),
            left,
            right,
        )
    }
}

/// Where the markers of such a line stand, the line starting at index
/// `from`.
pub open spec fn marked_spans(
    fillers: Seq<Seq<char>>,
    contents: Seq<Seq<char>>,
    left_len: int,
    right_len: int,
    from: int,
) -> Seq<(int, int)>
    decreases contents.len(),
{
    if fillers.len() == 0 || contents.len() == 0 {
        Seq::<(int, int)>::empty()
    } else {
        let start = from + fillers[0].len();
        let end = start + left_len + contents[0].len() + right_len;
        seq![(start, end)] + marked_spans(
            fillers.drop_first(),
            contents.drop_first(),
            left_len,
            right_len,
            end,
        )
    }
}

/// The pieces can stand as the fillers and contents of one line: no filler
/// holds the first character of the left delimiter, so that no marker starts
/// before its time, and no content holds the first character of the right
/// delimiter, so that none ends before its time.
pub open spec fn line_parts(
    fillers: Seq<Seq<char>>,
    contents: Seq<Seq<char>>,
    left: Seq<char>,
    right: Seq<char>,
) -> bool {
    &&& left.len() > 0
    &&& right.len() > 0
    &&& fillers.len() == contents.len() + 1
    &&& all_lack(fillers, left[0])
    &&& all_lack(contents, right[0])
}

/// There are as many spans as contents.
pub proof fn lemma_marked_spans_len(
    fillers: Seq<Seq<char>>,
    contents: Seq<Seq<char>>,
    left_len: int,
    right_len: int,
    from: int,
)
    requires
        fillers.len() == contents.len() + 1,
    ensures
        marked_spans(fillers, contents, left_len, right_len, from).len() == contents.len(),
    decreases contents.len(),
{
    if contents.len() > 0 {
        let end = from + fillers[0].len() + left_len + contents[0].len() + right_len;
        lemma_marked_spans_len(
            fillers.drop_first(),
            contents.drop_first(),
            left_len,
            right_len,
            end,
        );
    }
}

/// In a line put together from markers the scanner finds exactly these
/// markers, in order, and between the delimiters of each its content.
pub proof fn lemma_spans_of_marked_line(
    before: Seq<char>,
    fillers: Seq<Seq<char>>,
    contents: Seq<Seq<char>>,
    left: Seq<char>,
    right: Seq<char>,
)
    requires
        line_parts(fillers, contents, left, right),
    ensures
        ({
            let line = before + marked_line(fillers, contents, left, right);
            let spans = spans_from(line, left, right, before.len() as int);
            &&& spans == marked_spans(
                fillers,
                contents,
                left.len() as int,
                right.len() as int,
                before.len() as int,
            )
            &&& spans.len() == contents.len()
            &&& forall|k: int|
                0 <= k < contents.len() ==> line.subrange(
                    (#[trigger] spans[k]).0 + left.len(),
                    spans[k].1 - right.len(),
                ) == contents[k]
        }),
    decreases contents.len(),
{
    let line = before + marked_line(fillers, contents, left, right);
    let from = before.len() as int;
    lemma_marked_spans_len(fillers, contents, left.len() as int, right.len() as int, from);
    if contents.len() == 0 {
        assert(lacks(fillers[0], left[0]));
        lemma_find_in_lacking(before, fillers[0], left);
    } else {
        let gap = fillers[0];
        let inner = contents[0];
        let more_fillers = fillers.drop_first();
        let more_contents = contents.drop_first();
        let rest = marked_line(more_fillers, more_contents, left, right);
        let start = from + gap.len();
        let close = start + left.len() + inner.len();
        let end = close + right.len();
        assert(lacks(gap, left[0]));
        assert(lacks(inner, right[0]));
        lemma_find_behind_gap(before, gap, left, inner + right + rest);
        assert(before + gap + left + (inner + right + rest) =~= line);
        let opened = before + gap + left;
        lemma_find_behind_gap(opened, inner, right, rest);
        assert(opened + inner + right + rest =~= line);
        let closed = opened + inner + right;
        assert(closed + rest =~= line);
        assert forall|k: int| 0 <= k < more_fillers.len() implies lacks(
            #[trigger] more_fillers[k],
            left[0],
        ) by {
            assert(more_fillers[k] == fillers[k + 1]);
        }
        assert forall|k: int| 0 <= k < more_contents.len() implies lacks(
            #[trigger] more_contents[k],
            right[0],
        ) by {
            assert(more_contents[k] == contents[k + 1]);
        }
        lemma_spans_of_marked_line(closed, more_fillers, more_contents, left, right);
        let spans = spans_from(line, left, right, from);
        let later = spans_from(line, left, right, end);
        assert(first_index_from(line, left, from) == Some(start));
        assert(first_index_from(line, right, start + left.len()) == Some(close));
        assert(spans =~= seq![(start, end)] + later);
        assert(line.subrange(start + left.len(), end - right.len()) =~= inner);
        assert forall|k: int| 0 <= k < contents.len() implies line.subrange(
            (#[trigger] spans[k]).0 + left.len(),
            spans[k].1 - right.len(),
        ) == contents[k] by {
            if k > 0 {
                assert(spans[k] == later[k - 1]);
                assert(contents[k] == more_contents[k - 1]);
            }
        }
    }
}

/// The number of contents in the first `count` lines.
pub open spec fn contents_upto(contents: Seq<Seq<Seq<char>>>, count: int) -> int
    decreases count,
{
    if count <= 0 {
        0
    } else {
        contents_upto(contents, count - 1) + contents[count - 1].len()
    }
}

/// The lines that the fillers and contents make, one for each pair.
pub open spec fn marked_lines(
    fillers: Seq<Seq<Seq<char>>>,
    contents: Seq<Seq<Seq<char>>>,
    marker: MarkerView,
) -> Seq<Seq<char>> {
    Seq::new(
        contents.len(),
        |i: int| marked_line(fillers[i], contents[i], marker.left_marker, marker.right_marker),
    )
}

/// The text that the fillers and contents make: their lines, with a line
/// feed between neighbours.
pub open spec fn marked_text(
    fillers: Seq<Seq<Seq<char>>>,
    contents: Seq<Seq<Seq<char>>>,
    marker: MarkerView,
) -> Seq<char> {
    joined(marked_lines(fillers, contents, marker), seq!['\n'])
}

/// The fillers and contents can stand as a text of markers: line by line
/// they can stand as a line, no line holds a line feed, and no line ends
/// with a carriage return.
pub open spec fn text_parts(
    fillers: Seq<Seq<Seq<char>>>,
    contents: Seq<Seq<Seq<char>>>,
    marker: MarkerView,
) -> bool {
    &&& contents.len() > 0
    &&& fillers.len() == contents.len()
    &&& forall|i: int|
        0 <= i < contents.len() ==> #[trigger] line_parts(
            fillers[i],
            contents[i],
            marker.left_marker,
            marker.right_marker,
        )
    &&& all_lack(marked_lines(fillers, contents, marker), '\n')
    &&& forall|i: int|
        0 <= i < contents.len() ==> {
            let line = #[trigger] marked_lines(fillers, contents, marker)[i];
            line.len() == 0 || line.last() != '\r'
        }
}

/// Among `marks`, the mark of content `k` of line `i` stands behind the
/// marks of all lines before, at place `k`: it holds that content and the
/// number of that line.
pub open spec fn found_at(
    marks: Seq<MarkView>,
    contents: Seq<Seq<Seq<char>>>,
    i: int,
    k: int,
) -> bool {
    let at = contents_upto(contents, i) + k;
    &&& 0 <= at < marks.len()
    &&& marks[at].content == contents[i][k]
    &&& marks[at].position.line == i
}

/// The marks of the first lines depend on these lines alone.
proof fn lemma_marks_upto_same(a: Seq<Seq<char>>, b: Seq<Seq<char>>, count: int, marker: MarkerView)
    requires
        count <= a.len(),
        count <= b.len(),
        forall|i: int| 0 <= i < count ==> a[i] == b[i],
    ensures
        marks_upto(a, count, marker) == marks_upto(b, count, marker),
    decreases count,
{
    if count > 0 {
        lemma_marks_upto_same(a, b, count - 1, marker);
    }
}

/// The marks of lines put together from markers: as many as there are
/// contents, and the mark of content `k` of line `i` stands behind the
/// marks of all lines before, at place `k`.
proof fn lemma_marks_of_marked_lines(
    fillers: Seq<Seq<Seq<char>>>,
    contents: Seq<Seq<Seq<char>>>,
    marker: MarkerView,
    count: int,
)
    requires
        text_parts(fillers, contents, marker),
        0 <= count <= contents.len(),
    ensures
        ({
            let marks = marks_upto(marked_lines(fillers, contents, marker), count, marker);
            &&& marks.len() == contents_upto(contents, count)
            &&& forall|i: int, k: int|
                0 <= i < count && 0 <= k < contents[i].len() ==> #[trigger] found_at(
                    marks,
                    contents,
                    i,
                    k,
                )
        }),
    decreases count,
{
    let lines = marked_lines(fillers, contents, marker);
    if count > 0 {
        let last = count - 1;
        lemma_marks_of_marked_lines(fillers, contents, marker, last);
        let earlier = marks_upto(lines, last, marker);
        let here = line_marks(lines[last], last as nat, marker);
        let marks = marks_upto(lines, count, marker);
        assert(marks == earlier + here);
        assert(line_parts(fillers[last], contents[last], marker.left_marker, marker.right_marker));
        lemma_spans_of_marked_line(
            Seq::<char>::empty(),
            fillers[last],
            contents[last],
            marker.left_marker,
            marker.right_marker,
        );
        assert(Seq::<char>::empty() + lines[last] =~= lines[last]);
        let spans = spans_from(lines[last], marker.left_marker, marker.right_marker, 0);
        assert(here.len() == contents[last].len());
        assert forall|i: int, k: int| 0 <= i < count && 0 <= k < contents[i].len() implies #[trigger] found_at(
            marks,
            contents,
            i,
            k,
        ) by {
            lemma_contents_upto_grows(contents, i, last);
            let at = contents_upto(contents, i) + k;
            if i < last {
                assert(found_at(earlier, contents, i, k));
                assert(marks[at] == earlier[at]);
            } else {
                assert(marks[at] == here[k]);
                assert(here[k] == mark_of(lines[last], last as nat, spans[k], marker));
            }
        }
    }
}

/// The count of contents does not shrink with more lines.
proof fn lemma_contents_upto_grows(contents: Seq<Seq<Seq<char>>>, few: int, many: int)
    requires
        0 <= few <= many,
    ensures
        0 <= contents_upto(contents, few) <= contents_upto(contents, many),
    decreases many,
{
    if few < many {
        lemma_contents_upto_grows(contents, few, many - 1);
    } else if many > 0 {
        lemma_contents_upto_grows(contents, few - 1, many - 1);
    }
}

/// In a text put together from markers the scanner finds exactly these
/// markers: as many as there are contents, from top to bottom and in a line
/// from left to right, each with the number of its line and its content.
pub proof fn lemma_scan_finds_the_markers(
    fillers: Seq<Seq<Seq<char>>>,
    contents: Seq<Seq<Seq<char>>>,
    marker: MarkerView,
)
    requires
        text_parts(fillers, contents, marker),
    ensures
        ({
            let marks = marks_of(marked_text(fillers, contents, marker), marker);
            &&& marks.len() == contents_upto(contents, contents.len() as int)
            &&& forall|i: int, k: int|
                0 <= i < contents.len() && 0 <= k < contents[i].len() ==> #[trigger] found_at(
                    marks,
                    contents,
                    i,
                    k,
                )
        }),
{
    let lines = marked_lines(fillers, contents, marker);
    let text = marked_text(fillers, contents, marker);
    let count = lines.len() as int;
    lemma_pieces_of_joined(lines, seq!['\n']);
    let found = lines_of(text);
    assert forall|i: int| 0 <= i < found.len() implies found[i] == lines[i] by {
        assert(lines[i].len() == 0 || lines[i].last() != '\r');
    }
    lemma_marks_of_marked_lines(fillers, contents, marker, count);
    if lines.last().len() == 0 {
        lemma_marks_upto_same(found, lines, count - 1, marker);
        let empty = lines[count - 1];
        assert(line_parts(
            fillers[count - 1],
            contents[count - 1],
            marker.left_marker,
            marker.right_marker,
        ));
        assert(first_index_from(empty, marker.left_marker, 0) is None);
        assert(line_marks(empty, (count - 1) as nat, marker) =~= Seq::<MarkView>::empty());
        assert(marks_upto(lines, count, marker) =~= marks_upto(lines, count - 1, marker));
    } else {
        lemma_marks_upto_same(found, lines, count, marker);
    }
}

} // verus!
