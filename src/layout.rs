//! Breaking content text into display rows of a given width.

use vstd::prelude::*;
use crate::text::{
    char_at, first_grapheme_len, is_separator, prefix_len, is_text, lemma_text_width_concat, lemma_text_width_extend, slice,
    str_width, text_len, text_width, char_width,
};

verus! {

/// One display row: the characters `[start, end)` of the content, and how
/// many columns they take.
#[derive(Clone, Copy, Debug, PartialEq, Eq, Structural)]
pub struct Row {
    pub start: usize,
    pub end: usize,
    pub width: usize,
}

/// `row` holds the part `[start, end)` of `s`, and its width is that part's.
pub open spec fn row_measures(row: Row, s: Seq<char>) -> bool {
    &&& row.start <= row.end <= s.len()
    &&& row.width == text_width(s.subrange(row.start as int, row.end as int))
}

/// `rows` are non-empty, contiguous, and run from `0` to `end`; each is at
/// most `w` columns wide.
pub open spec fn rows_cover(rows: Seq<Row>, s: Seq<char>, end: int, w: int) -> bool {
    &&& (rows.len() == 0 <==> end == 0)
    &&& rows.len() > 0 ==> rows[0].start == 0 && rows.last().end == end
    &&& forall|k: int| 0 <= k < rows.len() - 1 ==> #[trigger] rows[k].end == rows[k + 1].start
    &&& forall|k: int|
        0 <= k < rows.len() ==> {
            &&& row_measures(#[trigger] rows[k], s)
            &&& rows[k].start < rows[k].end
            &&& rows[k].width <= w
        }
}

/// Rows break between tokens: every row but the last ends on a separator,
/// unless it is full (a token wider than a row is split).
pub open spec fn breaks_between_tokens(rows: Seq<Row>, s: Seq<char>, w: int) -> bool {
    forall|k: int|
        0 <= k < rows.len() - 1 ==> is_separator(s[#[trigger] rows[k].end - 1]) || rows[k].width
            == w
}

/// From `j`, the end of a run of spaces.
pub open spec fn spaces_end(s: Seq<char>, j: int) -> int
    decreases s.len() - j,
{
    if 0 <= j < s.len() && s[j] == ' ' {
        spaces_end(s, j + 1)
    } else {
        j
    }
}

/// From `j`, the end of a run of characters that are not separators.
pub open spec fn digits_end(s: Seq<char>, j: int) -> int
    decreases s.len() - j,
{
    if 0 <= j < s.len() && !is_separator(s[j]) {
        digits_end(s, j + 1)
    } else {
        j
    }
}

/// End of the chunk that starts at `j`: a token with the spaces after it,
/// or a run of spaces.
pub open spec fn chunk_end(s: Seq<char>, j: int) -> int {
    if s[j] == ' ' {
        spaces_end(s, j + 1)
    } else {
        spaces_end(s, digits_end(s, j + 1))
    }
}

proof fn lemma_spaces_end(s: Seq<char>, j: int)
    requires
        0 <= j <= s.len(),
    ensures
        j <= spaces_end(s, j) <= s.len(),
    decreases s.len() - j,
{
    if j < s.len() && s[j] == ' ' {
        lemma_spaces_end(s, j + 1);
    }
}

proof fn lemma_digits_end(s: Seq<char>, j: int)
    requires
        0 <= j <= s.len(),
    ensures
        j <= digits_end(s, j) <= s.len(),
    decreases s.len() - j,
{
    if j < s.len() && !is_separator(s[j]) {
        lemma_digits_end(s, j + 1);
    }
}

proof fn lemma_chunk_end(s: Seq<char>, p: int)
    requires
        0 <= p < s.len(),
    ensures
        p < chunk_end(s, p) <= s.len(),
{
    lemma_digits_end(s, p + 1);
    lemma_spaces_end(s, p + 1);
    lemma_spaces_end(s, digits_end(s, p + 1));
}

/// Greedy end of the row that starts at `start`, once the chunks before `p`
/// are in it: a line break closes the row; the next chunk joins if the row
/// still fits in `w` columns; a first chunk wider than that is cut after
/// its longest prefix that fits.
pub open spec fn fill_end(s: Seq<char>, start: int, p: int, w: int) -> int
    decreases s.len() - p,
    via fill_end_decreases
{
    if p < 0 || p >= s.len() {
        p
    } else if s[p] == '\n' {
        p + 1
    } else if text_width(s.subrange(start, chunk_end(s, p))) <= w {
        fill_end(s, start, chunk_end(s, p), w)
    } else if p == start {
        start + prefix_len(s.subrange(start, chunk_end(s, p)), w)
    } else {
        p
    }
}

#[via_fn]
proof fn fill_end_decreases(s: Seq<char>, start: int, p: int, w: int) {
    if 0 <= p < s.len() {
        lemma_chunk_end(s, p);
    }
}

/// The rows of `s` from offset `start` on, wrapped greedily at `w` columns
/// (a row that would not advance ends the list).
pub open spec fn rows_from(s: Seq<char>, start: int, w: int) -> Seq<Row>
    decreases s.len() - start,
{
    if start < 0 || start >= s.len() {
        seq![]
    } else {
        let e = fill_end(s, start, start, w);
        if e <= start || e > s.len() {
            seq![]
        } else {
            seq![
                Row {
                    start: start as usize,
                    end: e as usize,
                    width: text_width(s.subrange(start, e)) as usize,
                },
            ] + rows_from(s, e, w)
        }
    }
}

/// The rows of `s` wrapped greedily at `w` columns.
pub open spec fn wrap(s: Seq<char>, w: int) -> Seq<Row> {
    rows_from(s, 0, w)
}

/// `rows` with the ghost row added when they do not reach the end of `s`.
pub open spec fn with_ghost(rows: Seq<Row>, s: Seq<char>) -> Seq<Row> {
    if rows.len() == 0 || rows.last().end != s.len() {
        rows.push(Row { start: s.len() as usize, end: s.len() as usize, width: 0 })
    } else {
        rows
    }
}

/// `row` holds no line break but maybe as its last character.
pub open spec fn row_is_line(row: Row, s: Seq<char>) -> bool {
    forall|j: int| row.start <= j < row.end - 1 ==> #[trigger] s[j] != '\n'
}

/// Rows are as long as they can be: every row but the last ends with a line
/// break, is full, or could not also hold the chunk that follows it.
pub open spec fn rows_maximal(rows: Seq<Row>, s: Seq<char>, w: int) -> bool {
    forall|k: int|
        0 <= k < rows.len() - 1 ==> {
            ||| s[#[trigger] rows[k].end - 1] == '\n'
            ||| rows[k].width == w
            ||| rows[k].width + text_width(
                s.subrange(rows[k].end as int, chunk_end(s, rows[k].end as int)),
            ) > w
        }
}

pub open spec fn floor_width(width: usize) -> int {
    if width == 0 {
        1
    } else {
        width as int
    }
}

/// End of the row that starts at `start`, and its width: whole chunks (a run
/// of digits with the spaces after it) while they fit in `w` columns; a line
/// break closes the row; a chunk wider than a row is split between graphemes.
fn row_end(text: &str, start: usize, w: usize) -> (r: (usize, usize))
    requires
        is_text(text@),
        start < text@.len(),
        w >= 1,
    ensures
        start < r.0 <= text@.len(),
        r.1 == text_width(text@.subrange(start as int, r.0 as int)),
        r.1 <= w,
        r.0 == text@.len() || is_separator(text@[r.0 - 1]) || r.1 == w,
        row_is_line(Row { start, end: r.0, width: r.1 }, text@),
        r.0 < text@.len() ==> text@[r.0 - 1] == '\n' || r.1 == w || r.1 + text_width(
            text@.subrange(r.0 as int, chunk_end(text@, r.0 as int)),
        ) > w,
        r.0 == fill_end(text@, start as int, start as int, w as int),
{
    let ghost s = text@;
    let n = text_len(text);
    let mut end = start;
    let mut rw: usize = 0;
    let mut done = false;
    assert(s.subrange(start as int, start as int) =~= Seq::<char>::empty());
    while !done && end < n
        invariant
            s == text@,
            is_text(s),
            n == s.len(),
            start <= end <= n,
            rw == text_width(s.subrange(start as int, end as int)),
            rw <= w,
            w >= 1,
            done ==> end > start,
            !done && start < end < n ==> s[end - 1] == ' ' || s[end as int] == '\n',
            done ==> end == n || is_separator(s[end - 1]) || rw == w,
            forall|j: int| start <= j < end - 1 ==> #[trigger] s[j] != '\n',
            !done && end > start ==> s[end - 1] != '\n',
            done && end < n ==> s[end - 1] == '\n' || rw == w || rw + text_width(
                s.subrange(end as int, chunk_end(s, end as int)),
            ) > w,
            !done ==> fill_end(s, start as int, start as int, w as int) == fill_end(
                s,
                start as int,
                end as int,
                w as int,
            ),
            done ==> end == fill_end(s, start as int, start as int, w as int),
        decreases (n - end) * 2 + if done { 0int } else { 1int },
    {
        let c = char_at(text, end);
        if c == '\n' {
            proof {
                lemma_text_width_extend(s, start as int, end as int);
            }
            end = end + 1;
            done = true;
        } else {
            let mut ce = end + 1;
            while c != ' ' && ce < n && char_at(text, ce) != ' ' && char_at(text, ce) != '\n'
                invariant
                    s == text@,
                    is_text(s),
                    n == s.len(),
                    end < ce <= n,
                    c == s[end as int],
                    c != '\n',
                    c == ' ' ==> ce == end + 1,
                    forall|k: int| end <= k < ce ==> #[trigger] s[k] != '\n',
                    c != ' ' ==> digits_end(s, end + 1) == digits_end(s, ce as int),
                decreases n - ce,
            {
                ce = ce + 1;
            }
            let ghost d = ce as int;
            assert(d == if c == ' ' { end + 1 } else { digits_end(s, end + 1) });
            assert(ce == n || s[ce as int] == ' ' || s[ce as int] == '\n' || s[ce - 1] == ' ');
            while ce < n && char_at(text, ce) == ' '
                invariant
                    s == text@,
                    is_text(s),
                    n == s.len(),
                    end < ce <= n,
                    forall|k: int| end <= k < ce ==> #[trigger] s[k] != '\n',
                    ce == n || s[ce as int] == ' ' || s[ce as int] == '\n' || s[ce - 1] == ' ',
                    spaces_end(s, d) == spaces_end(s, ce as int),
                decreases n - ce,
            {
                ce = ce + 1;
            }
            assert(ce == chunk_end(s, end as int));
            let cw = str_width(slice(text, end, ce));
            proof {
                lemma_text_width_concat(
                    s.subrange(start as int, end as int),
                    s.subrange(end as int, ce as int),
                );
                assert(s.subrange(start as int, end as int) + s.subrange(end as int, ce as int)
                    =~= s.subrange(start as int, ce as int));
            }
            if cw <= w - rw {
                rw = rw + cw;
                end = ce;
            } else {
                if end == start {
                    while end < ce
                        invariant
                            s == text@,
                            is_text(s),
                            n == s.len(),
                            start <= end <= ce <= n,
                            rw == text_width(s.subrange(start as int, end as int)),
                            rw <= w,
                            w >= 1,
                            end == start ==> rw == 0,
                            ce > start,
                            forall|k: int| start <= k < ce ==> #[trigger] s[k] != '\n',
                            cw == text_width(s.subrange(start as int, ce as int)),
                            cw > w,
                            prefix_len(s.subrange(start as int, ce as int), w as int) == (end
                                - start) + prefix_len(s.subrange(end as int, ce as int), w - rw),
                        ensures
                            end == start + prefix_len(s.subrange(start as int, ce as int), w as int),
                            end > start,
                            rw == text_width(s.subrange(start as int, end as int)),
                            rw <= w,
                            end <= n,
                            rw == w,
                        decreases ce - end,
                    {
                        let g = first_grapheme_len(slice(text, end, ce));
                        let gw = str_width(slice(text, end, end + g));
                        proof {
                            lemma_text_width_extend(s, start as int, end as int);
                            assert(s.subrange(end as int, end + 1) =~= seq![s[end as int]]);
                            assert(seq![s[end as int]].drop_last() =~= Seq::<char>::empty());
                            reveal_with_fuel(text_width, 2);
                            assert(gw == char_width(s[end as int]));
                            assert(s.subrange(end as int, ce as int)[0] == s[end as int]);
                            assert(s.subrange(end as int, ce as int).drop_first() =~= s.subrange(
                                end + 1,
                                ce as int,
                            ));
                        }
                        if gw > w - rw {
                            break;
                        }
                        rw = rw + gw;
                        end = end + g;
                    }
                }
                done = true;
            }
        }
    }
    (end, rw)
}

/// Rows of `text` at `width` columns (a width of zero counts as one), broken
/// greedily between chunks (a token and the spaces after it) and after line
/// breaks: they cover the text from start to end, each non-empty, no wider
/// than that, as long as it can be, and ending on a separator unless full.
pub fn make_rows(text: &str, width: usize) -> (rows: Vec<Row>)
    requires
        is_text(text@),
    ensures
        rows_cover(rows@, text@, text@.len() as int, floor_width(width)),
        breaks_between_tokens(rows@, text@, floor_width(width)),
        rows_maximal(rows@, text@, floor_width(width)),
        forall|k: int| 0 <= k < rows@.len() ==> row_is_line(#[trigger] rows@[k], text@),
        rows@ == wrap(text@, floor_width(width)),
{
    let w: usize = if width == 0 {
        1
    } else {
        width
    };
    let n = text_len(text);
    let mut rows: Vec<Row> = Vec::new();
    let mut start: usize = 0;
    assert(Seq::<Row>::empty() + rows_from(text@, 0, w as int) =~= rows_from(text@, 0, w as int));
    while start < n
        invariant
            is_text(text@),
            n == text@.len(),
            start <= n,
            w == floor_width(width),
            rows_cover(rows@, text@, start as int, w as int),
            wrap(text@, w as int) == rows@ + rows_from(text@, start as int, w as int),
            forall|k: int| 0 <= k < rows@.len() ==> row_is_line(#[trigger] rows@[k], text@),
            forall|k: int|
                0 <= k < rows@.len() ==> {
                    ||| #[trigger] rows@[k].end == n
                    ||| text@[rows@[k].end - 1] == '\n'
                    ||| rows@[k].width == w
                    ||| rows@[k].width + text_width(
                        text@.subrange(rows@[k].end as int, chunk_end(text@, rows@[k].end as int)),
                    ) > w
                },
            forall|k: int|
                0 <= k < rows@.len() ==> #[trigger] rows@[k].end == n || is_separator(
                    text@[rows@[k].end - 1],
                ) || rows@[k].width == w,
        decreases n - start,
    {
        let (end, rw) = row_end(text, start, w);
        let row = Row { start, end, width: rw };
        assert(rows@.push(row) + rows_from(text@, end as int, w as int) =~= rows@ + rows_from(
            text@,
            start as int,
            w as int,
        ));
        rows.push(row);
        start = end;
    }
    assert(rows@ + rows_from(text@, start as int, w as int) =~= rows@);
    assert forall|k: int| 0 <= k < rows@.len() - 1 implies is_separator(
        text@[#[trigger] rows@[k].end - 1],
    ) || rows@[k].width == w by {
        assert(rows@[k].end == rows@[k + 1].start);
        assert(row_measures(rows@[k + 1], text@));
    }
    rows
}

/// Rows of a content text as the editor keeps them: at least one, the first
/// starting at `0`, contiguous, all non-empty but the last, which ends at the
/// end of the text (an empty last row there is the ghost row, a cell for the
/// cursor at the very end).
pub open spec fn rows_wf(rows: Seq<Row>, s: Seq<char>) -> bool {
    &&& rows.len() >= 1
    &&& rows[0].start == 0
    &&& rows.last().end == s.len()
    &&& forall|k: int| 0 <= k < rows.len() - 1 ==> #[trigger] rows[k].end == rows[k + 1].start
    &&& forall|k: int| 0 <= k < rows.len() - 1 ==> #[trigger] rows[k].start < rows[k].end
    &&& forall|k: int| 0 <= k < rows.len() ==> row_measures(#[trigger] rows[k], s)
}

/// Row `i` is the one that holds offset `off`: the last row starting at or
/// before it.
pub open spec fn row_of(rows: Seq<Row>, off: int, i: int) -> bool {
    &&& 0 <= i < rows.len()
    &&& rows[i].start <= off
    &&& (i == rows.len() - 1 || off < rows[i + 1].start)
}

/// The row that holds offset `off`.
pub open spec fn row_index(rows: Seq<Row>, off: int) -> int {
    choose|i: int| row_of(rows, off, i)
}

/// The characters of `row`.
pub open spec fn row_text(s: Seq<char>, row: Row) -> Seq<char> {
    s.subrange(row.start as int, row.end as int)
}

proof fn lemma_starts_increase(rows: Seq<Row>, s: Seq<char>, a: int, b: int)
    requires
        rows_wf(rows, s),
        0 <= a < b < rows.len(),
    ensures
        rows[a].start < rows[b].start,
        rows[a].end <= rows[b].start,
    decreases b - a,
{
    assert(rows[b - 1].end == rows[b].start);
    assert(rows[b - 1].start < rows[b - 1].end);
    if a < b - 1 {
        lemma_starts_increase(rows, s, a, b - 1);
    }
}

proof fn lemma_row_found_from(rows: Seq<Row>, s: Seq<char>, off: int, i: int)
    requires
        rows_wf(rows, s),
        0 <= i < rows.len(),
        rows[i].start <= off,
    ensures
        exists|j: int| row_of(rows, off, j),
    decreases rows.len() - i,
{
    if i < rows.len() - 1 && rows[i + 1].start <= off {
        lemma_row_found_from(rows, s, off, i + 1);
    } else {
        assert(row_of(rows, off, i));
    }
}

/// Every offset of the text, its end included, lies in exactly one row,
/// between that row's start and end.
pub proof fn lemma_row_index(rows: Seq<Row>, s: Seq<char>, off: int)
    requires
        rows_wf(rows, s),
        0 <= off <= s.len(),
    ensures
        row_of(rows, off, row_index(rows, off)),
        forall|i: int| row_of(rows, off, i) ==> i == row_index(rows, off),
        rows[row_index(rows, off)].start <= off <= rows[row_index(rows, off)].end,
        row_index(rows, off) < rows.len() - 1 ==> off < rows[row_index(rows, off)].end,
{
    lemma_row_found_from(rows, s, off, 0);
    let r = row_index(rows, off);
    assert forall|i: int| row_of(rows, off, i) implies i == r by {
        if i < r {
            if i + 1 < r {
                lemma_starts_increase(rows, s, i + 1, r);
            }
        } else if r < i {
            if r + 1 < i {
                lemma_starts_increase(rows, s, r + 1, i);
            }
        }
    }
    if r < rows.len() - 1 {
        assert(rows[r].end == rows[r + 1].start);
    }
    assert(row_measures(rows[r], s));
}

/// The row list with the ghost row added when the rows do not reach the end
/// of the text (that is, when there are none).
pub fn fix_ghost_row(rows: &mut Vec<Row>, text: &str)
    requires
        is_text(text@),
        exists|w: int| rows_cover(old(rows)@, text@, text@.len() as int, w),
    ensures
        rows_wf(final(rows)@, text@),
        final(rows)@ == with_ghost(old(rows)@, text@),
{
    let n = text_len(text);
    if rows.len() == 0 || rows[rows.len() - 1].end != n {
        rows.push(Row { start: n, end: n, width: 0 });
        assert(text@.subrange(0, 0) =~= Seq::<char>::empty());
    }
}

/// Rows of `text` at `width` columns, with the ghost row when it is empty.
pub fn make_layout(text: &str, width: usize) -> (rows: Vec<Row>)
    requires
        is_text(text@),
    ensures
        rows_wf(rows@, text@),
        rows@ == with_ghost(wrap(text@, floor_width(width)), text@),
{
    let mut rows = make_rows(text, width);
    fix_ghost_row(&mut rows, text);
    rows
}

} // verus!
