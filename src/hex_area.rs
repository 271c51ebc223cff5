//! The hex editing widget: content text, its rows, a cursor, and the modal
//! commands that move the cursor and overwrite digits.

use vstd::prelude::*;
use vstd::string::StringExecFns;
use crate::address::{
    address_label, address_offset, hex_to_cursor_pos, lemma_hex_value_nonneg, sat, to_32bit_hex,
};
use crate::direction::Direction;
use crate::event::{Event, EventResult, Key, MouseButton, MouseEvent};
use crate::layout::{floor_width, lemma_row_index, make_layout, with_ghost, wrap, row_index, row_measures, row_text, rows_wf, Row};
use crate::mode::EditorMode;
use crate::nav::{
    column, count_tokens, find_token_after, down_pos, down_times, gap_end, is_separator_char, lemma_down_pos_range,
    lemma_down_times_range, lemma_hex_moves, lemma_normal_cursor_range,
    lemma_up_pos_range, lemma_up_times_range, next_hex, normal_cursor, prefix, prev_hex,
    skip_back,
    tokens_in, up_pos, up_times, word_end, word_start,
};
use crate::scroll::{scrolled_to, with_heights, ScrollBase};
use crate::text::{
    lemma_prefix_len_le, prefix_len,
    char_at, char_width, first_grapheme_len, first_uppercase, is_text, last_grapheme_len,
    lemma_text_concat, push_char, replace_char, slice, str_width, text_len, text_width, upper_first,
};
use crate::xy::{Rect, Vec2, XY};

verus! {

/// Columns taken by the address shown in front of each row.
pub const ADDRESS_LENGTH: usize = 10;

/// Multi-line hex editor, navigated with modal keyboard commands.
pub struct HexArea {
    content: String,
    /// Offsets of the display rows; never empty.
    rows: Vec<Row>,
    /// When `false`, no input is taken.
    enabled: bool,
    scrollbase: ScrollBase,
    /// The size that the rows were computed for, while they are still valid.
    size_cache: Option<Vec2>,
    last_size: Vec2,
    /// Offset of the selected character.
    cursor: usize,
    mode: EditorMode,
    bytes_per_line: usize,
}

/// What an editor holds, as plain values.
pub struct HexAreaView {
    /// The content text.
    pub content: Seq<char>,
    /// The display rows.
    pub rows: Seq<Row>,
    /// The cursor offset.
    pub cursor: int,
    /// The input mode.
    pub mode: EditorMode,
    /// Whether input is taken.
    pub enabled: bool,
    /// The scrolling state.
    pub scroll: ScrollBase,
    /// The size the rows were computed for, while they are valid.
    pub size_cache: Option<Vec2>,
    /// The size of the last layout.
    pub last_size: Vec2,
    /// Number of tokens in a row, for the address labels.
    pub bytes_per_line: int,
}

impl View for HexArea {
    type V = HexAreaView;

    closed spec fn view(&self) -> HexAreaView {
        HexAreaView {
            content: self.content@,
            rows: self.rows@,
            cursor: self.cursor as int,
            mode: self.mode,
            enabled: self.enabled,
            scroll: self.scrollbase,
            size_cache: self.size_cache,
            last_size: self.last_size,
            bytes_per_line: self.bytes_per_line as int,
        }
    }
}

/// Columns that `size` leaves for the rows after the address.
pub open spec fn avail_width(size: Vec2) -> usize {
    if size.x >= ADDRESS_LENGTH {
        (size.x - ADDRESS_LENGTH) as usize
    } else {
        0
    }
}

/// The rows laid out for `size`: wrapped at the columns left after the
/// address, or one column fewer (for a scrollbar) when they would not fit
/// in its height; with the ghost row when needed.
pub open spec fn layout_for(s: Seq<char>, size: Vec2) -> Seq<Row> {
    let a = avail_width(size);
    let first = with_ghost(wrap(s, floor_width(a)), s);
    if first.len() > size.y {
        with_ghost(wrap(s, floor_width(if a >= 1 { (a - 1) as usize } else { 0 })), s)
    } else {
        first
    }
}

/// The rows before any size is known: one per line of the text.
pub open spec fn unsized_layout(s: Seq<char>) -> Seq<Row> {
    with_ghost(wrap(s, floor_width(usize::MAX)), s)
}

/// The rows after the content became `s`: laid out for the cached size if
/// there is one.
pub open spec fn rows_after(s: Seq<char>, cache: Option<Vec2>) -> Seq<Row> {
    match cache {
        Some(size) => layout_for(s, size),
        None => unsized_layout(s),
    }
}

/// The scroll state after the rows were laid out again: heights for the
/// cached size (a line is kept for the mode) and the `n` rows.
pub open spec fn scroll_after(sb: ScrollBase, cache: Option<Vec2>, n: nat) -> ScrollBase {
    match cache {
        Some(size) => with_heights(
            sb,
            (if size.y >= 1 { size.y - 1 } else { 0 }) as usize,
            n as usize,
        ),
        None => sb,
    }
}

/// The hex values joined by single spaces.
pub open spec fn joined(v: Seq<&str>) -> Seq<char>
    decreases v.len(),
{
    if v.len() == 0 {
        seq![]
    } else if v.len() == 1 {
        v[0]@
    } else {
        joined(v.drop_last()) + seq![' '] + v.last()@
    }
}

impl HexArea {
    /// The invariant: content text, well-formed rows over it, and the cursor
    /// within the content (its end included).
    pub closed spec fn wf(&self) -> bool {
        &&& self.core_wf()
        &&& rows_wf(self.rows@, self.content@)
    }

    /// The invariant but for the rows, which a change of content leaves stale.
    closed spec fn core_wf(&self) -> bool {
        &&& is_text(self.content@)
        &&& self.cursor <= self.content@.len()
        &&& self.scrollbase.wf()
    }

    /// The rows are never empty and partition the content: the first starts
    /// at `0`, each starts where the one before ends, and the last ends at
    /// the end of the content (an empty last row there is the ghost row).
    pub proof fn lemma_rows_partition(&self)
        requires
            self.wf(),
        ensures
            self@.rows.len() >= 1,
            self@.rows[0].start == 0,
            self@.rows.last().end == self@.content.len(),
            forall|k: int|
                0 <= k < self@.rows.len() - 1 ==> #[trigger] self@.rows[k].end == self@.rows[k
                    + 1].start,
            forall|k: int|
                0 <= k < self@.rows.len() ==> self@.rows[k].start <= #[trigger] self@.rows[k].end,
            forall|k: int|
                0 <= k < self@.rows.len() - 1 ==> #[trigger] self@.rows[k].start
                    < self@.rows[k].end,
    {
        assert forall|k: int| 0 <= k < self@.rows.len() implies self@.rows[k].start
            <= #[trigger] self@.rows[k].end by {
            assert(row_measures(self.rows@[k], self.content@));
        }
    }

    /// The cursor lies in a row: at its start, at its end, or in between;
    /// and on a character boundary, since the content is ASCII. Every
    /// command keeps the invariant, so this holds after any of them.
    pub proof fn lemma_cursor_in_row(&self)
        requires
            self.wf(),
        ensures
            exists|r: int|
                0 <= r < self@.rows.len() && #[trigger] self@.rows[r].start <= self@.cursor
                    <= self@.rows[r].end,
            vstd::utf8::is_ascii_chars(self@.content),
            0 <= self@.cursor <= self@.content.len(),
    {
        lemma_row_index(self.rows@, self.content@, self.cursor as int);
        crate::text::lemma_text_ascii(self.content@);
        let r = row_index(self.rows@, self.cursor as int);
        assert(0 <= r < self@.rows.len() && self@.rows[r].start <= self@.cursor
            <= self@.rows[r].end);
    }

    /// Creates an editor showing the given hex values, separated by spaces.
    pub fn from(hex_values: &Vec<&str>) -> (r: HexArea)
        requires
            forall|i: int| 0 <= i < hex_values@.len() ==> is_text(#[trigger] hex_values@[i]@),
        ensures
            r.wf(),
            r@.content == joined(hex_values@),
            r@.cursor == 0,
            r@.mode == EditorMode::Normal,
            r@.enabled,
            r@.size_cache is None,
            r@.rows == unsized_layout(r@.content),
    {
        let mut content = String::new();
        let mut i: usize = 0;
        while i < hex_values.len()
            invariant
                i <= hex_values@.len(),
                forall|k: int| 0 <= k < hex_values@.len() ==> is_text(#[trigger] hex_values@[k]@),
                content@ == joined(hex_values@.take(i as int)),
                is_text(content@),
            decreases hex_values@.len() - i,
        {
            proof {
                let p = hex_values@.take(i + 1);
                assert(p.drop_last() =~= hex_values@.take(i as int));
                assert(p.last() == hex_values@[i as int]);
                assert(is_text(seq![' '])) by {
                    assert(seq![' '][0] == ' ');
                }
            }
            if i > 0 {
                proof {
                    lemma_text_concat(content@, seq![' ']);
                }
                push_char(&mut content, ' ');
            }
            proof {
                lemma_text_concat(content@, hex_values@[i as int]@);
            }
            content.append(hex_values[i]);
            i = i + 1;
        }
        assert(hex_values@.take(i as int) =~= hex_values@);
        let rows = make_layout(content.as_str(), usize::MAX);
        HexArea {
            content,
            rows,
            enabled: true,
            scrollbase: ScrollBase::new(),
            size_cache: None,
            last_size: Vec2::zero(),
            cursor: 0,
            mode: EditorMode::Normal,
            bytes_per_line: 0,
        }
    }

    /// The content text.
    pub fn get_content(&self) -> (r: &str)
        ensures
            r@ == self@.content,
    {
        self.content.as_str()
    }

    fn invalidate(&mut self)
        ensures
            *final(self) == (HexArea { size_cache: None, ..*old(self) }),
    {
        self.size_cache = None;
    }

    /// The cursor offset in the content.
    pub fn cursor(&self) -> (r: usize)
        ensures
            r == self@.cursor,
    {
        self.cursor
    }

    /// Whether this view takes input.
    pub fn is_enabled(&self) -> (r: bool)
        ensures
            r == self@.enabled,
    {
        self.enabled
    }

    /// Stops taking input; a disabled view cannot be selected.
    pub fn disable(&mut self)
        ensures
            final(self)@ == (HexAreaView { enabled: false, ..old(self)@ }),
    {
        self.enabled = false;
    }

    /// Disables this view; chainable.
    pub fn disabled(self) -> (r: HexArea)
        ensures
            r@ == (HexAreaView { enabled: false, ..self@ }),
    {
        let mut s = self;
        s.disable();
        s
    }

    /// Takes input again.
    pub fn enable(&mut self)
        ensures
            final(self)@ == (HexAreaView { enabled: true, ..old(self)@ }),
    {
        self.enabled = true;
    }

    /// Enables this view; chainable.
    pub fn enabled(self) -> (r: HexArea)
        ensures
            r@ == (HexAreaView { enabled: true, ..self@ }),
    {
        let mut s = self;
        s.enable();
        s
    }

    /// The row that holds offset `offset`.
    fn row_at(&self, offset: usize) -> (r: usize)
        requires
            self.wf(),
            offset <= self.content@.len(),
        ensures
            r == row_index(self.rows@, offset as int),
            r < self.rows@.len(),
    {
        proof {
            lemma_row_index(self.rows@, self.content@, offset as int);
        }
        let mut i: usize = 0;
        while i < self.rows.len() - 1 && self.rows[i + 1].start <= offset
            invariant
                self.wf(),
                i < self.rows@.len(),
                self.rows@[i as int].start <= offset,
            decreases self.rows@.len() - i,
        {
            i = i + 1;
        }
        assert(crate::layout::row_of(self.rows@, offset as int, i as int));
        i
    }

    /// Columns to the left of offset `offset` in its row.
    fn col_at(&self, offset: usize) -> (r: usize)
        requires
            self.wf(),
            offset <= self.content@.len(),
        ensures
            r == column(self.content@, self.rows@, offset as int),
    {
        let row_id = self.row_at(offset);
        let row = self.rows[row_id];
        proof {
            lemma_row_index(self.rows@, self.content@, offset as int);
        }
        str_width(slice(self.content.as_str(), row.start, offset))
    }

    /// The row that holds the cursor.
    fn selected_row(&self) -> (r: usize)
        requires
            self.wf(),
        ensures
            r == row_index(self.rows@, self.cursor as int),
            r < self.rows@.len(),
    {
        self.row_at(self.cursor)
    }

    /// The cursor's column in its row.
    fn selected_col(&self) -> (r: usize)
        requires
            self.wf(),
        ensures
            r == column(self.content@, self.rows@, self.cursor as int),
    {
        self.col_at(self.cursor)
    }

    /// Moves the cursor one grapheme right, into the next row if need be.
    fn move_right(&mut self)
        requires
            old(self).wf(),
            old(self).cursor < old(self).content@.len(),
        ensures
            final(self).wf(),
            *final(self) == (HexArea { cursor: (old(self).cursor + 1) as usize, ..*old(self) }),
    {
        let n = text_len(self.content.as_str());
        let len = first_grapheme_len(slice(self.content.as_str(), self.cursor, n));
        self.cursor = self.cursor + len;
    }

    /// Moves the cursor one grapheme left, into the previous row if need be.
    fn move_left(&mut self)
        requires
            old(self).wf(),
            old(self).cursor > 0,
        ensures
            final(self).wf(),
            *final(self) == (HexArea { cursor: (old(self).cursor - 1) as usize, ..*old(self) }),
    {
        let mut row = self.selected_row();
        proof {
            lemma_row_index(self.rows@, self.content@, self.cursor as int);
        }
        if self.rows[row].start == self.cursor {
            assert(row > 0);
            assert(self.rows@[row - 1].end == self.rows@[row as int].start);
            assert(self.rows@[row - 1].start < self.rows@[row - 1].end);
            row = row - 1;
        }
        let text = slice(self.content.as_str(), self.rows[row].start, self.cursor);
        let len = last_grapheme_len(text);
        self.cursor = self.cursor - len;
    }

    /// Moves the cursor to the same column in the row above; nothing on the
    /// first row.
    fn move_up(&mut self)
        requires
            old(self).wf(),
        ensures
            final(self).wf(),
            *final(self) == (HexArea {
                cursor: up_pos(old(self).content@, old(self).rows@, old(self).cursor as int)
                    as usize,
                ..*old(self)
            }),
    {
        let row_id = self.selected_row();
        if row_id == 0 {
            return ;
        }
        let x = self.col_at(self.cursor);
        let prev_row = self.rows[row_id - 1];
        proof {
            assert(row_measures(self.rows@[row_id - 1], self.content@));
            lemma_prefix_len_le(row_text(self.content@, prev_row), x as int);
        }
        let prev_text = slice(self.content.as_str(), prev_row.start, prev_row.end);
        let offset = prefix(prev_text, x);
        self.cursor = prev_row.start + offset;
    }

    /// Moves the cursor to the same column in the row below; nothing on the
    /// last row.
    fn move_down(&mut self)
        requires
            old(self).wf(),
        ensures
            final(self).wf(),
            *final(self) == (HexArea {
                cursor: down_pos(old(self).content@, old(self).rows@, old(self).cursor as int)
                    as usize,
                ..*old(self)
            }),
    {
        let row_id = self.selected_row();
        if row_id == self.rows.len() - 1 {
            return ;
        }
        let x = self.col_at(self.cursor);
        let next_row = self.rows[row_id + 1];
        proof {
            assert(row_measures(self.rows@[row_id + 1], self.content@));
            lemma_prefix_len_le(row_text(self.content@, next_row), x as int);
        }
        let next_text = slice(self.content.as_str(), next_row.start, next_row.end);
        let offset = prefix(next_text, x);
        self.cursor = next_row.start + offset;
    }

    /// Five rows up.
    fn page_up(&mut self)
        requires
            old(self).wf(),
        ensures
            final(self).wf(),
            *final(self) == (HexArea {
                cursor: up_times(old(self).content@, old(self).rows@, old(self).cursor as int, 5)
                    as usize,
                ..*old(self)
            }),
    {
        let mut i: usize = 0;
        while i < 5
            invariant
                i <= 5,
                self.wf(),
                *self == (HexArea { cursor: self.cursor, ..*old(self) }),
                self.cursor as int == up_times(old(self).content@, old(self).rows@, old(self).cursor as int, i as nat),
            decreases 5 - i,
        {
            proof {
                lemma_up_pos_range(self.content@, self.rows@, self.cursor as int);
            }
            self.move_up();
            i = i + 1;
        }
    }

    /// Five rows down.
    fn page_down(&mut self)
        requires
            old(self).wf(),
        ensures
            final(self).wf(),
            *final(self) == (HexArea {
                cursor: down_times(old(self).content@, old(self).rows@, old(self).cursor as int, 5)
                    as usize,
                ..*old(self)
            }),
    {
        let mut i: usize = 0;
        while i < 5
            invariant
                i <= 5,
                self.wf(),
                *self == (HexArea { cursor: self.cursor, ..*old(self) }),
                self.cursor as int == down_times(old(self).content@, old(self).rows@, old(self).cursor as int, i as nat),
            decreases 5 - i,
        {
            proof {
                lemma_down_pos_range(self.content@, self.rows@, self.cursor as int);
            }
            self.move_down();
            i = i + 1;
        }
    }
}

impl HexArea {
    /// Moves the cursor to offset `cursor`, and scrolls to show it.
    pub fn set_cursor(&mut self, cursor: usize)
        requires
            old(self).wf(),
            cursor <= old(self)@.content.len(),
        ensures
            final(self).wf(),
            final(self)@ == (HexAreaView {
                cursor: cursor as int,
                scroll: scrolled_to(old(self)@.scroll, row_index(old(self)@.rows, cursor as int)),
                ..old(self)@
            }),
    {
        self.cursor = cursor;
        let focus = self.selected_row();
        self.scrollbase.scroll_to(focus);
    }

    /// Whether the rows were computed for `size` and are still valid.
    fn is_cache_valid(&self, size: Vec2) -> (r: bool)
        ensures
            r == (self.size_cache == Some(size)),
    {
        match self.size_cache {
            None => false,
            Some(last) => last.x == size.x && last.y == size.y,
        }
    }

    /// Computes the rows for `size`, unless they are still valid for it: the
    /// address takes `ADDRESS_LENGTH` columns, and one more goes to a
    /// scrollbar when the rows do not fit in the height.
    fn soft_compute_rows(&mut self, size: Vec2)
        requires
            old(self).core_wf(),
            old(self).size_cache is Some ==> rows_wf(old(self).rows@, old(self).content@),
        ensures
            final(self).wf(),
            final(self).size_cache == Some(size),
            old(self).size_cache == Some(size) ==> *final(self) == *old(self),
            *final(self) == (HexArea { rows: final(self).rows, size_cache: Some(size), ..*old(self) }),
            old(self).size_cache != Some(size) ==> final(self).rows@ == layout_for(
                old(self).content@,
                size,
            ),
    {
        if self.is_cache_valid(size) {
            return ;
        }
        let mut available = size.x.saturating_sub(ADDRESS_LENGTH);
        self.rows = make_layout(self.content.as_str(), available);
        if self.rows.len() > size.y {
            available = available.saturating_sub(1);
            self.rows = make_layout(self.content.as_str(), available);
        }
        self.size_cache = Some(size);
    }

    /// Computes the rows for `size`, then the scroll heights (one line below
    /// the rows shows the mode) and the tokens per row.
    fn compute_rows(&mut self, size: Vec2)
        requires
            old(self).core_wf(),
            old(self).size_cache is Some ==> rows_wf(old(self).rows@, old(self).content@),
        ensures
            final(self).wf(),
            final(self).size_cache == Some(size),
            old(self).size_cache == Some(size) ==> final(self).rows == old(self).rows,
            old(self).size_cache != Some(size) ==> final(self).rows@ == layout_for(
                old(self).content@,
                size,
            ),
            final(self).content == old(self).content,
            final(self).cursor == old(self).cursor,
            final(self).mode == old(self).mode,
            final(self).enabled == old(self).enabled,
            final(self).last_size == old(self).last_size,
            final(self).scrollbase == scroll_after(
                old(self).scrollbase,
                Some(size),
                final(self).rows@.len(),
            ),
            final(self).bytes_per_line == tokens_in(row_text(final(self).content@, final(self).rows@[0])),
    {
        self.soft_compute_rows(size);
        self.scrollbase.set_heights(size.y.saturating_sub(1), self.rows.len());
        let start = self.rows[0].start;
        let end = self.rows[0].end;
        proof {
            assert(row_measures(self.rows@[0], self.content@));
        }
        self.bytes_per_line = count_tokens(slice(self.content.as_str(), start, end));
    }

    /// Recomputes the rows after a change of content: for the cached size if
    /// there is one, else all on one line.
    fn relayout(&mut self)
        requires
            old(self).core_wf(),
        ensures
            final(self).wf(),
            final(self).content == old(self).content,
            final(self).cursor == old(self).cursor,
            final(self).mode == old(self).mode,
            final(self).enabled == old(self).enabled,
            final(self).size_cache == old(self).size_cache,
            final(self).last_size == old(self).last_size,
            final(self).rows@ == rows_after(old(self).content@, old(self).size_cache),
            final(self).scrollbase == scroll_after(
                old(self).scrollbase,
                old(self).size_cache,
                final(self).rows@.len(),
            ),
    {
        match self.size_cache {
            Some(size) => {
                self.invalidate();
                self.compute_rows(size);
            },
            None => {
                self.rows = make_layout(self.content.as_str(), usize::MAX);
            },
        }
    }

    /// Replaces the content, keeps the cursor within it, and lays it out
    /// again.
    pub fn set_content(&mut self, content: String)
        requires
            old(self).wf(),
            is_text(content@),
        ensures
            final(self).wf(),
            final(self)@.content == content@,
            final(self)@.cursor == if old(self)@.cursor <= content@.len() {
                old(self)@.cursor
            } else {
                content@.len() as int
            },
            final(self)@.mode == old(self)@.mode,
            final(self)@.enabled == old(self)@.enabled,
            final(self)@.size_cache == old(self)@.size_cache,
            final(self)@.rows == rows_after(content@, old(self)@.size_cache),
            final(self)@.scroll == scroll_after(
                old(self)@.scroll,
                old(self)@.size_cache,
                final(self)@.rows.len(),
            ),
    {
        self.content = content;
        let n = text_len(self.content.as_str());
        if self.cursor > n {
            self.cursor = n;
        }
        self.relayout();
    }

    /// Replaces the content; chainable.
    pub fn content(self, content: String) -> (r: HexArea)
        requires
            self.wf(),
            is_text(content@),
        ensures
            r.wf(),
            r@.content == content@,
            r@.cursor == if self@.cursor <= content@.len() {
                self@.cursor
            } else {
                content@.len() as int
            },
            r@.mode == self@.mode,
            r@.enabled == self@.enabled,
    {
        let mut s = self;
        s.set_content(content);
        s
    }

    /// Moves to the start of the next token, stepping grapheme by grapheme
    /// over the rest of this token and the separators after it; when no
    /// token follows, moves one grapheme on (not past the end).
    fn move_to_next_hex(&mut self)
        requires
            old(self).wf(),
        ensures
            final(self).wf(),
            *final(self) == (HexArea {
                cursor: next_hex(old(self).content@, old(self).cursor as int) as usize,
                ..*old(self)
            }),
    {
        let ghost s = self.content@;
        let ghost c0 = self.cursor as int;
        proof {
            lemma_hex_moves(s, c0);
        }
        let n = text_len(self.content.as_str());
        let start = self.cursor;
        while self.cursor < n && !is_separator_char(char_at(self.content.as_str(), self.cursor))
            invariant
                self.wf(),
                s == self.content@,
                n == s.len(),
                *self == (HexArea { cursor: self.cursor, ..*old(self) }),
                word_end(s, c0) == word_end(s, self.cursor as int),
            decreases n - self.cursor,
        {
            self.move_right();
        }
        let ghost w = self.cursor as int;
        while self.cursor < n && is_separator_char(char_at(self.content.as_str(), self.cursor))
            invariant
                self.wf(),
                s == self.content@,
                n == s.len(),
                *self == (HexArea { cursor: self.cursor, ..*old(self) }),
                w == word_end(s, c0),
                gap_end(s, w) == gap_end(s, self.cursor as int),
            decreases n - self.cursor,
        {
            self.move_right();
        }
        if self.cursor == n {
            self.cursor = start;
            if start < n {
                self.move_right();
            }
        }
    }

    /// Moves to the start of the last token that starts before the cursor,
    /// stepping grapheme by grapheme back over separators and then to the
    /// token's first character; stays when there is none.
    fn move_to_prev_hex(&mut self)
        requires
            old(self).wf(),
            old(self).cursor > 0,
        ensures
            final(self).wf(),
            *final(self) == (HexArea {
                cursor: prev_hex(old(self).content@, old(self).cursor as int) as usize,
                ..*old(self)
            }),
    {
        let ghost s = self.content@;
        let ghost c0 = self.cursor as int;
        proof {
            lemma_hex_moves(s, c0);
        }
        let n = text_len(self.content.as_str());
        let start = self.cursor;
        self.move_left();
        while self.cursor > 0 && is_separator_char(char_at(self.content.as_str(), self.cursor))
            invariant
                self.wf(),
                s == self.content@,
                n == s.len(),
                self.cursor < n,
                *self == (HexArea { cursor: self.cursor, ..*old(self) }),
                skip_back(s, c0 - 1) == skip_back(s, self.cursor as int),
            decreases self.cursor,
        {
            self.move_left();
        }
        let ghost a = self.cursor as int;
        if is_separator_char(char_at(self.content.as_str(), self.cursor)) {
            self.cursor = start;
        } else {
            while self.cursor > 0 && !is_separator_char(char_at(self.content.as_str(), self.cursor - 1))
                invariant
                    self.wf(),
                    s == self.content@,
                    n == s.len(),
                    a == skip_back(s, c0 - 1),
                    *self == (HexArea { cursor: self.cursor, ..*old(self) }),
                    word_start(s, a) == word_start(s, self.cursor as int),
                decreases self.cursor,
            {
                self.move_left();
            }
        }
    }

    /// Overwrites the character under the cursor with `ch` and moves on to
    /// the next token.
    fn replace(&mut self, ch: char)
        requires
            old(self).wf(),
            old(self).cursor < old(self).content@.len(),
            crate::text::is_hex_digit(ch),
        ensures
            final(self).wf(),
            final(self).content@ == old(self).content@.update(old(self).cursor as int, ch),
            final(self).cursor == next_hex(final(self).content@, old(self).cursor as int),
            final(self).cursor > old(self).cursor,
            final(self).mode == old(self).mode,
            final(self).enabled == old(self).enabled,
            final(self).size_cache == old(self).size_cache,
            final(self).last_size == old(self).last_size,
            final(self).rows@ == rows_after(final(self).content@, old(self).size_cache),
            final(self).scrollbase == scroll_after(
                old(self).scrollbase,
                old(self).size_cache,
                final(self).rows@.len(),
            ),
    {
        proof {
            crate::text::lemma_text_ascii(self.content@);
        }
        replace_char(&mut self.content, self.cursor, ch);
        proof {
            let t = self.content@;
            assert forall|i: int| 0 <= i < t.len() implies crate::text::is_text_char(#[trigger] t[i]) by {
                if i != old(self).cursor {
                    assert(t[i] == old(self).content@[i]);
                }
            }
        }
        self.relayout();
        proof {
            lemma_hex_moves(self.content@, self.cursor as int);
        }
        self.move_to_next_hex();
    }

    /// In insert mode: overwrites the character under the cursor with `ch`
    /// and moves to the next token when `ch` is an uppercase hex digit and
    /// the cursor is on a character; otherwise nothing changes.
    pub fn overwrite_digit(&mut self, ch: char)
        requires
            old(self).wf(),
        ensures
            final(self).wf(),
            if crate::text::is_upper_hex_digit(ch) && old(self)@.cursor < old(self)@.content.len() {
                &&& final(self)@.content == old(self)@.content.update(old(self)@.cursor, ch)
                &&& final(self)@.cursor == next_hex(final(self)@.content, old(self)@.cursor)
                &&& final(self)@.cursor > old(self)@.cursor
                &&& final(self)@.mode == old(self)@.mode
                &&& final(self)@.enabled == old(self)@.enabled
                &&& final(self)@.size_cache == old(self)@.size_cache
                &&& final(self)@.last_size == old(self)@.last_size
                &&& final(self)@.rows == rows_after(final(self)@.content, old(self)@.size_cache)
                &&& final(self)@.scroll == scroll_after(
                    old(self)@.scroll,
                    old(self)@.size_cache,
                    final(self)@.rows.len(),
                )
            } else {
                final(self)@ == old(self)@
            },
    {
        let is_digit = ('0' <= ch && ch <= '9') || ('A' <= ch && ch <= 'F');
        if is_digit && self.cursor < text_len(self.content.as_str()) {
            self.replace(ch);
        }
    }

    /// A normal-mode command: `i` enters insert mode; `l` and `w` go to the
    /// start of the next token (nothing on the last one), `h` and `b` to
    /// that of the previous one;
    /// `k`/`j` a row up/down, `0`/`$` to the start/end of the row. Each does
    /// nothing where it cannot move; other characters do nothing.
    fn handle_normal_input(&mut self, ch: char)
        requires
            old(self).wf(),
        ensures
            final(self).wf(),
            *final(self) == (HexArea {
                cursor: normal_cursor(old(self).content@, old(self).rows@, old(self).cursor as int, ch)
                    as usize,
                mode: if ch == 'i' { EditorMode::Insert } else { old(self).mode },
                ..*old(self)
            }),
    {
        let ghost s = self.content@;
        let ghost rows = self.rows@;
        let ghost c = self.cursor as int;
        let n = text_len(self.content.as_str());
        proof {
            lemma_row_index(rows, s, c);
        }
        if ch == 'i' {
            self.mode = EditorMode::Insert;
        } else if ch == 'l' || ch == 'w' {
            if find_token_after(self.content.as_str(), self.cursor) < n {
                self.move_to_next_hex();
            }
        } else if ch == 'h' || ch == 'b' {
            if self.cursor > 0 {
                self.move_to_prev_hex();
            }
        } else if ch == 'j' {
            let r = self.selected_row();
            if r < self.rows.len() - 1 {
                proof {
                    assert(row_measures(rows[0], s));
                    assert(rows[0].start < rows[0].end);
                    lemma_down_pos_range(s, rows, c);
                }
                self.move_down();
                if self.cursor == n {
                    self.move_left();
                }
            }
        } else if ch == 'k' {
            let r = self.selected_row();
            if r > 0 {
                self.move_up();
            }
        } else if ch == '0' {
            let r = self.selected_row();
            self.cursor = self.rows[r].start;
        } else if ch == '$' {
            let r = self.selected_row();
            let e = self.rows[r].end;
            if e > 0 {
                self.cursor = e - 1;
                if is_separator_char(char_at(self.content.as_str(), self.cursor)) && self.cursor > 0 {
                    self.move_left();
                }
            }
        }
    }
}

/// Largest width among `rows`.
pub open spec fn max_width(rows: Seq<Row>) -> int
    decreases rows.len(),
{
    if rows.len() == 0 {
        0
    } else if max_width(rows.drop_last()) >= rows.last().width {
        max_width(rows.drop_last())
    } else {
        rows.last().width as int
    }
}

/// `v` with the scroll moved to show the cursor's row.
pub open spec fn synced(v: HexAreaView) -> HexAreaView {
    HexAreaView { scroll: scrolled_to(v.scroll, row_index(v.rows, v.cursor)), ..v }
}

impl HexArea {
    /// Moves the cursor to the start of the byte at the hex address
    /// `address` (to the end of the content if it lies beyond), and scrolls
    /// to show it; an address with a character that is not a hex digit is
    /// ignored.
    pub fn goto(&mut self, address: &str)
        requires
            old(self).wf(),
        ensures
            final(self).wf(),
            match address_offset(address@) {
                Some(p) => final(self)@ == synced(HexAreaView {
                    cursor: if p <= old(self)@.content.len() {
                        p
                    } else {
                        old(self)@.content.len() as int
                    },
                    ..old(self)@
                }),
                None => final(self)@ == old(self)@,
            },
    {
        proof {
            lemma_hex_value_nonneg(address@);
        }
        match hex_to_cursor_pos(address) {
            Some(i) => {
                let n = text_len(self.content.as_str());
                let c = if i <= n {
                    i
                } else {
                    n
                };
                self.set_cursor(c);
            },
            None => (),
        }
    }

    /// The size this view asks for within `constraint`: its widest row,
    /// one column for the cursor after it and one for a scrollbar when the
    /// rows overflow the height; and one line per row. Computes the rows for
    /// `constraint` unless they are already valid for it.
    pub fn required_size(&mut self, constraint: Vec2) -> (r: Vec2)
        requires
            old(self).wf(),
        ensures
            final(self).wf(),
            final(self)@.size_cache == Some(constraint),
            old(self)@.size_cache == Some(constraint) ==> final(self)@ == old(self)@,
            old(self)@.size_cache != Some(constraint) ==> final(self)@.rows == layout_for(
                old(self)@.content,
                constraint,
            ),
            final(self)@.content == old(self)@.content,
            final(self)@.cursor == old(self)@.cursor,
            final(self)@.mode == old(self)@.mode,
            r.y == final(self)@.rows.len(),
            r.x == sat(
                (if final(self)@.rows.len() > constraint.y { 1int } else { 0int }) + 1 + max_width(
                    final(self)@.rows,
                ),
            ),
    {
        self.soft_compute_rows(constraint);
        let scroll_width: usize = if self.rows.len() > constraint.y {
            1
        } else {
            0
        };
        let mut widest: usize = 0;
        let mut i: usize = 0;
        while i < self.rows.len()
            invariant
                i <= self.rows@.len(),
                widest == max_width(self.rows@.take(i as int)),
            decreases self.rows@.len() - i,
        {
            assert(self.rows@.take(i + 1).drop_last() =~= self.rows@.take(i as int));
            if self.rows[i].width > widest {
                widest = self.rows[i].width;
            }
            i = i + 1;
        }
        assert(self.rows@.take(i as int) =~= self.rows@);
        let x = if widest <= usize::MAX - 1 - scroll_width {
            scroll_width + 1 + widest
        } else {
            usize::MAX
        };
        XY::new(x, self.rows.len())
    }

    /// Lays the view out at `size`: rows (unless still valid for it), scroll
    /// heights and tokens per row.
    pub fn layout(&mut self, size: Vec2)
        requires
            old(self).wf(),
        ensures
            final(self).wf(),
            final(self)@.last_size == size,
            final(self)@.size_cache == Some(size),
            old(self)@.size_cache == Some(size) ==> final(self)@.rows == old(self)@.rows,
            old(self)@.size_cache != Some(size) ==> final(self)@.rows == layout_for(
                old(self)@.content,
                size,
            ),
            final(self)@.content == old(self)@.content,
            final(self)@.cursor == old(self)@.cursor,
            final(self)@.mode == old(self)@.mode,
            final(self)@.enabled == old(self)@.enabled,
    {
        self.last_size = size;
        self.compute_rows(size);
    }

    /// Whether this view accepts the focus: when it is enabled.
    pub fn take_focus(&mut self, source: Direction) -> (r: bool)
        ensures
            r == old(self)@.enabled,
            final(self)@ == old(self)@,
    {
        self.enabled
    }

    /// The cell of the cursor, relative to the rows: its column and row, one
    /// line high and as wide as the character under it (one past the end).
    pub fn important_area(&self, size: Vec2) -> (r: Rect)
        requires
            self.wf(),
        ensures
            r.top_left.x == column(self@.content, self@.rows, self@.cursor),
            r.top_left.y == row_index(self@.rows, self@.cursor),
            r.size.y == 1,
            r.size.x == if self@.cursor >= self@.content.len() {
                1
            } else {
                char_width(self@.content[self@.cursor])
            },
    {
        let n = text_len(self.content.as_str());
        let char_width = if self.cursor >= n {
            1
        } else {
            let g = first_grapheme_len(slice(self.content.as_str(), self.cursor, n));
            proof {
                let s = self.content@;
                let c = self.cursor as int;
                assert(s.subrange(c, c + 1) =~= seq![s[c]]);
                assert(seq![s[c]].drop_last() =~= Seq::<char>::empty());
                reveal_with_fuel(text_width, 2);
            }
            str_width(slice(self.content.as_str(), self.cursor, self.cursor + g))
        };
        Rect::from_size(XY::new(self.selected_col(), self.selected_row()), XY::new(char_width, 1))
    }
}

/// Insert-mode typing of `up` took the editor from `o` to `f`: an uppercase
/// hex digit overwrites the character under the cursor, the rows are laid
/// out again, the cursor moves forward (to the next token, or one character
/// on from the last one) and the view scrolls to it; anything else changes
/// nothing but the scroll.
pub open spec fn inserted(o: HexAreaView, f: HexAreaView, up: char) -> bool {
    if crate::text::is_upper_hex_digit(up) && o.cursor < o.content.len() {
        &&& f.content == o.content.update(o.cursor, up)
        &&& f.cursor == next_hex(f.content, o.cursor)
        &&& f.cursor > o.cursor
        &&& f.mode == o.mode
        &&& f.enabled == o.enabled
        &&& f.size_cache == o.size_cache
        &&& f.last_size == o.last_size
        &&& f.rows == rows_after(f.content, o.size_cache)
        &&& f.scroll == scrolled_to(
            scroll_after(o.scroll, o.size_cache, f.rows.len()),
            row_index(f.rows, f.cursor),
        )
    } else {
        f == synced(o)
    }
}

/// Whether a left press at `position` (absolute, the view's corner at
/// `offset`) is on the scrollbar column, the last one, of a scrollable view.
pub open spec fn on_scrollbar(o: HexAreaView, position: Vec2, offset: Vec2) -> bool {
    &&& offset.x <= position.x
    &&& offset.y <= position.y
    &&& o.scroll.content_height > o.scroll.view_height
    &&& position.x - offset.x + 1 == o.last_size.x
}

/// The offset under a press at `p` (relative to the view): the row shown
/// there (the last one below the rows), and the column as in `prefix_len`.
pub open spec fn press_target(o: HexAreaView, p: Vec2) -> int {
    let y0 = sat(p.y + o.scroll.start_line);
    let y = if y0 < o.rows.len() - 1 {
        y0
    } else {
        o.rows.len() - 1
    };
    o.rows[y].start + prefix_len(row_text(o.content, o.rows[y]), p.x as int)
}

impl HexArea {
    /// Handles one input event. Characters are commands in normal mode and
    /// overwrite digits in insert mode; `Esc` returns to normal mode; the
    /// arrows, page keys and Ctrl+Home/End move in either mode. After a
    /// keyboard command the view scrolls to show the cursor. The wheel and
    /// the scrollbar scroll without moving the cursor; a press on a row puts
    /// the cursor there. A disabled view takes nothing.
    #[verifier::rlimit(80)]
    #[verifier::spinoff_prover]
    pub fn on_event<C>(&mut self, event: Event) -> (r: EventResult<C>)
        requires
            old(self).wf(),
        ensures
            final(self).wf(),
            r is Consumed ==> r->Consumed_0 is None,
            r is Ignored ==> final(self)@ == old(self)@,
            final(self)@.enabled == old(self)@.enabled,
            !old(self)@.enabled ==> r is Ignored,
            old(self)@.enabled ==> match event {
                Event::Char(ch) => r is Consumed && if old(self)@.mode == EditorMode::Normal {
                    final(self)@ == synced(
                        HexAreaView {
                            cursor: normal_cursor(
                                old(self)@.content,
                                old(self)@.rows,
                                old(self)@.cursor,
                                ch,
                            ),
                            mode: if ch == 'i' {
                                EditorMode::Insert
                            } else {
                                EditorMode::Normal
                            },
                            ..old(self)@
                        },
                    )
                } else {
                    inserted(old(self)@, final(self)@, upper_first(ch))
                },
                Event::Key(Key::Esc) => r is Consumed && final(self)@ == synced(
                    HexAreaView { mode: EditorMode::Normal, ..old(self)@ },
                ),
                Event::Ctrl(Key::Home) => r is Consumed && final(self)@ == synced(
                    HexAreaView { cursor: 0, ..old(self)@ },
                ),
                Event::Ctrl(Key::End) => r is Consumed && final(self)@ == synced(
                    HexAreaView { cursor: old(self)@.content.len() as int, ..old(self)@ },
                ),
                Event::Key(Key::Up) => if row_index(old(self)@.rows, old(self)@.cursor) > 0 {
                    r is Consumed && final(self)@ == synced(
                        HexAreaView {
                            cursor: up_pos(old(self)@.content, old(self)@.rows, old(self)@.cursor),
                            ..old(self)@
                        },
                    )
                } else {
                    r is Ignored
                },
                Event::Key(Key::Down) => if row_index(old(self)@.rows, old(self)@.cursor) + 1
                    < old(self)@.rows.len() {
                    r is Consumed && final(self)@ == synced(
                        HexAreaView {
                            cursor: down_pos(old(self)@.content, old(self)@.rows, old(self)@.cursor),
                            ..old(self)@
                        },
                    )
                } else {
                    r is Ignored
                },
                Event::Key(Key::PageUp) => r is Consumed && final(self)@ == synced(
                    HexAreaView {
                        cursor: up_times(old(self)@.content, old(self)@.rows, old(self)@.cursor, 5),
                        ..old(self)@
                    },
                ),
                Event::Key(Key::PageDown) => r is Consumed && final(self)@ == synced(
                    HexAreaView {
                        cursor: down_times(old(self)@.content, old(self)@.rows, old(self)@.cursor, 5),
                        ..old(self)@
                    },
                ),
                Event::Key(Key::Left) => if old(self)@.cursor > 0 {
                    r is Consumed && final(self)@ == synced(
                        HexAreaView { cursor: old(self)@.cursor - 1, ..old(self)@ },
                    )
                } else {
                    r is Ignored
                },
                Event::Key(Key::Right) => if old(self)@.cursor < old(self)@.content.len() {
                    r is Consumed && final(self)@ == synced(
                        HexAreaView { cursor: old(self)@.cursor + 1, ..old(self)@ },
                    )
                } else {
                    r is Ignored
                },
                Event::Mouse { event: MouseEvent::WheelUp, .. } => if old(self)@.scroll.start_line > 0 {
                    r is Consumed && final(self)@ == (HexAreaView {
                        scroll: ScrollBase {
                            start_line: if old(self)@.scroll.start_line >= 5 {
                                (old(self)@.scroll.start_line - 5) as usize
                            } else {
                                0
                            },
                            ..old(self)@.scroll
                        },
                        ..old(self)@
                    })
                } else {
                    r is Ignored
                },
                Event::Mouse { event: MouseEvent::WheelDown, .. } => if old(self)@.scroll.start_line
                    < old(self)@.scroll.max_start() {
                    r is Consumed && final(self)@ == (HexAreaView {
                        scroll: ScrollBase {
                            start_line: if old(self)@.scroll.start_line + 5
                                <= old(self)@.scroll.max_start() {
                                (old(self)@.scroll.start_line + 5) as usize
                            } else {
                                old(self)@.scroll.max_start() as usize
                            },
                            ..old(self)@.scroll
                        },
                        ..old(self)@
                    })
                } else {
                    r is Ignored
                },
                Event::Mouse { event: MouseEvent::Hold(MouseButton::Left), .. } => r is Consumed
                    && final(self)@ == (HexAreaView { scroll: final(self)@.scroll, ..old(self)@ }),
                Event::Mouse { event: MouseEvent::Press(button), position, offset } => if button
                    == MouseButton::Left && on_scrollbar(old(self)@, position, offset) {
                    r is Consumed && final(self)@ == (HexAreaView {
                        scroll: final(self)@.scroll,
                        ..old(self)@
                    })
                } else if offset.x <= position.x < offset.x + old(self)@.last_size.x && offset.y
                    <= position.y < offset.y + old(self)@.last_size.y {
                    r is Consumed && final(self)@ == (HexAreaView {
                        cursor: press_target(
                            old(self)@,
                            Vec2 { x: (position.x - offset.x) as usize, y: (position.y - offset.y) as usize },
                        ),
                        ..old(self)@
                    })
                } else {
                    r is Ignored
                },
                _ => r is Ignored,
            },
    {
        if !self.enabled {
            return EventResult::Ignored;
        }
        let n = text_len(self.content.as_str());
        let mut fix_scroll = true;
        match event {
            Event::Char(ch) => {
                if self.mode.is_normal() {
                    proof {
                        lemma_normal_cursor_range(self.content@, self.rows@, self.cursor as int, ch);
                    }
                    self.handle_normal_input(ch);
                } else {
                    let up = first_uppercase(ch);
                    self.overwrite_digit(up);
                }
            },
            Event::Key(Key::Esc) => {
                self.mode = EditorMode::Normal;
            },
            Event::Ctrl(Key::Home) => {
                self.cursor = 0;
            },
            Event::Ctrl(Key::End) => {
                self.cursor = n;
            },
            Event::Key(Key::Up) => {
                if self.selected_row() > 0 {
                    proof {
                        lemma_up_pos_range(self.content@, self.rows@, self.cursor as int);
                    }
                    self.move_up();
                } else {
                    return EventResult::Ignored;
                }
            },
            Event::Key(Key::Down) => {
                if self.selected_row() < self.rows.len() - 1 {
                    proof {
                        lemma_down_pos_range(self.content@, self.rows@, self.cursor as int);
                    }
                    self.move_down();
                } else {
                    return EventResult::Ignored;
                }
            },
            Event::Key(Key::PageUp) => {
                proof {
                    lemma_up_times_range(self.content@, self.rows@, self.cursor as int, 5);
                }
                self.page_up();
            },
            Event::Key(Key::PageDown) => {
                proof {
                    lemma_down_times_range(self.content@, self.rows@, self.cursor as int, 5);
                }
                self.page_down();
            },
            Event::Key(Key::Left) => {
                if self.cursor > 0 {
                    self.move_left();
                } else {
                    return EventResult::Ignored;
                }
            },
            Event::Key(Key::Right) => {
                if self.cursor < n {
                    self.move_right();
                } else {
                    return EventResult::Ignored;
                }
            },
            Event::Mouse { event: MouseEvent::WheelUp, .. } => {
                if self.scrollbase.can_scroll_up() {
                    fix_scroll = false;
                    self.scrollbase.scroll_up(5);
                } else {
                    return EventResult::Ignored;
                }
            },
            Event::Mouse { event: MouseEvent::WheelDown, .. } => {
                if self.scrollbase.can_scroll_down() {
                    fix_scroll = false;
                    self.scrollbase.scroll_down(5);
                } else {
                    return EventResult::Ignored;
                }
            },
            Event::Mouse { event: MouseEvent::Hold(MouseButton::Left), position, offset } => {
                fix_scroll = false;
                self.scrollbase.drag(position.saturating_sub(offset));
            },
            Event::Mouse { event: MouseEvent::Press(button), position, offset } => {
                fix_scroll = false;
                let on_bar = if button == MouseButton::Left {
                    match position.checked_sub(offset) {
                        Some(p) => self.scrollbase.start_drag(p, self.last_size.x),
                        None => false,
                    }
                } else {
                    false
                };
                if !on_bar {
                    if position.fits_in_rect(offset, self.last_size) {
                        let p = position.saturating_sub(offset);
                        let y0 = p.y.saturating_add(self.scrollbase.start_line);
                        let last = self.rows.len() - 1;
                        let y = if y0 < last {
                            y0
                        } else {
                            last
                        };
                        let row = self.rows[y];
                        proof {
                            assert(row_measures(self.rows@[y as int], self.content@));
                            lemma_prefix_len_le(row_text(self.content@, row), p.x as int);
                        }
                        let text = slice(self.content.as_str(), row.start, row.end);
                        self.cursor = row.start + prefix(text, p.x);
                    } else {
                        return EventResult::Ignored;
                    }
                }
            },
            _ => {
                return EventResult::Ignored;
            },
        }
        if fix_scroll {
            let focus = self.selected_row();
            self.scrollbase.scroll_to(focus);
        }
        EventResult::Consumed(None)
    }
}

/// The line drawn for row `i`: its address label (row number times tokens
/// per row, at most the largest `usize`), then its characters.
pub open spec fn row_line(v: HexAreaView, i: int) -> Seq<char> {
    address_label(sat(i * v.bytes_per_line) as nat) + row_text(v.content, v.rows[i])
}

/// Index of the first row below the viewport.
pub open spec fn visible_end(v: HexAreaView) -> int {
    if v.scroll.start_line + v.scroll.view_height <= v.rows.len() {
        v.scroll.start_line + v.scroll.view_height
    } else {
        v.rows.len() as int
    }
}

impl HexArea {
    /// The input mode.
    pub fn mode(&self) -> (r: EditorMode)
        ensures
            r == self@.mode,
    {
        self.mode
    }

    /// The lines to draw for the rows in the viewport, from the first one
    /// shown: each row's address label and characters.
    pub fn render(&self) -> (r: Vec<String>)
        requires
            self.wf(),
        ensures
            r@.len() == if self@.scroll.start_line <= visible_end(self@) {
                visible_end(self@) - self@.scroll.start_line
            } else {
                0
            },
            forall|k: int|
                0 <= k < r@.len() ==> #[trigger] r@[k]@ == row_line(
                    self@,
                    self@.scroll.start_line + k,
                ),
    {
        let first = self.scrollbase.start_line;
        let end = if first <= self.rows.len() && self.scrollbase.view_height <= self.rows.len()
            - first {
            first + self.scrollbase.view_height
        } else {
            self.rows.len()
        };
        let mut lines: Vec<String> = Vec::new();
        let mut i = first;
        while i < end
            invariant
                self.wf(),
                first == self@.scroll.start_line,
                end == visible_end(self@),
                first <= i <= end || (i == first && end < first),
                lines@.len() == i - first,
                forall|k: int|
                    0 <= k < lines@.len() ==> #[trigger] lines@[k]@ == row_line(self@, first + k),
            decreases end - i,
        {
            let row = self.rows[i];
            proof {
                assert(row_measures(self.rows@[i as int], self.content@));
            }
            let address = match i.checked_mul(self.bytes_per_line) {
                Some(a) => a,
                None => usize::MAX,
            };
            let mut line = to_32bit_hex(address);
            line.append(slice(self.content.as_str(), row.start, row.end));
            lines.push(line);
            i = i + 1;
        }
        lines
    }

    /// What to draw in the cursor's cell: the character under it, or `_`
    /// at the end of its row.
    pub fn cursor_glyph(&self) -> (r: String)
        requires
            self.wf(),
        ensures
            r@ == if self@.cursor == self@.rows[row_index(self@.rows, self@.cursor)].end {
                "_"@
            } else {
                seq![self@.content[self@.cursor]]
            },
    {
        let r = self.selected_row();
        proof {
            lemma_row_index(self.rows@, self.content@, self.cursor as int);
        }
        if self.cursor == self.rows[r].end {
            "_".to_owned()
        } else {
            let n = text_len(self.content.as_str());
            let g = first_grapheme_len(slice(self.content.as_str(), self.cursor, n));
            let cell = slice(self.content.as_str(), self.cursor, self.cursor + g);
            assert(cell@ =~= seq![self.content@[self.cursor as int]]);
            cell.to_owned()
        }
    }
}

} // verus!
