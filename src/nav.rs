//! Cursor motion over content text laid out in rows: columns, the same
//! column in another row, token starts, and the normal-mode commands.

use vstd::prelude::*;
use crate::layout::{lemma_row_index, row_index, row_measures, row_text, rows_wf, Row};
use crate::text::{
    lemma_prefix_len_le, prefix_len, char_at, char_width, first_grapheme_len, is_separator, is_text, slice, str_width, text_len,
    text_width,
};

verus! {

/// Column of offset `off` within its row.
pub open spec fn column(s: Seq<char>, rows: Seq<Row>, off: int) -> nat {
    text_width(s.subrange(rows[row_index(rows, off)].start as int, off))
}

/// Where the cursor goes one row up: the same column in the row above, or
/// nowhere from the first row.
pub open spec fn up_pos(s: Seq<char>, rows: Seq<Row>, c: int) -> int {
    let r = row_index(rows, c);
    if r == 0 {
        c
    } else {
        rows[r - 1].start + prefix_len(row_text(s, rows[r - 1]), column(s, rows, c) as int)
    }
}

/// Where the cursor goes one row down: the same column in the row below, or
/// nowhere from the last row.
pub open spec fn down_pos(s: Seq<char>, rows: Seq<Row>, c: int) -> int {
    let r = row_index(rows, c);
    if r + 1 >= rows.len() {
        c
    } else {
        rows[r + 1].start + prefix_len(row_text(s, rows[r + 1]), column(s, rows, c) as int)
    }
}

/// The cursor after `n` moves up.
pub open spec fn up_times(s: Seq<char>, rows: Seq<Row>, c: int, n: nat) -> int
    decreases n,
{
    if n == 0 {
        c
    } else {
        up_pos(s, rows, up_times(s, rows, c, (n - 1) as nat))
    }
}

/// The cursor after `n` moves down.
pub open spec fn down_times(s: Seq<char>, rows: Seq<Row>, c: int, n: nat) -> int
    decreases n,
{
    if n == 0 {
        c
    } else {
        down_pos(s, rows, down_times(s, rows, c, (n - 1) as nat))
    }
}

/// From offset `j`, the first offset on a separator or at the end.
pub open spec fn word_end(s: Seq<char>, j: int) -> int
    decreases s.len() - j,
{
    if j < 0 || j >= s.len() || is_separator(s[j]) {
        j
    } else {
        word_end(s, j + 1)
    }
}

/// From offset `j`, the first offset not on a separator, or the end.
pub open spec fn gap_end(s: Seq<char>, j: int) -> int
    decreases s.len() - j,
{
    if j < 0 || j >= s.len() || !is_separator(s[j]) {
        j
    } else {
        gap_end(s, j + 1)
    }
}

/// From offset `j`, backwards, the first offset that is not on a separator,
/// stopping at the first character.
pub open spec fn skip_back(s: Seq<char>, j: int) -> int
    decreases j,
{
    if j <= 0 || j >= s.len() || !is_separator(s[j]) {
        j
    } else {
        skip_back(s, j - 1)
    }
}

/// Start of the token that holds offset `j`.
pub open spec fn word_start(s: Seq<char>, j: int) -> int
    decreases j,
{
    if j <= 0 || j > s.len() || is_separator(s[j - 1]) {
        j
    } else {
        word_start(s, j - 1)
    }
}

/// Where the token after offset `c` starts (the end of the text when
/// none follows).
pub open spec fn token_after(s: Seq<char>, c: int) -> int {
    gap_end(s, word_end(s, c))
}

/// Start of the next token after offset `c`; when none follows, one
/// character on (nowhere from the end).
pub open spec fn next_hex(s: Seq<char>, c: int) -> int {
    if token_after(s, c) < s.len() {
        token_after(s, c)
    } else if c < s.len() {
        c + 1
    } else {
        c
    }
}

/// Start of the last token that starts before offset `c` (`c > 0`); `c`
/// itself when there is none.
pub open spec fn prev_hex(s: Seq<char>, c: int) -> int {
    let a = skip_back(s, c - 1);
    if is_separator(s[a]) {
        c
    } else {
        word_start(s, a)
    }
}

/// End of the cursor's row: its last character, or the one before when that
/// is a separator; nowhere in an empty text.
pub open spec fn line_end(s: Seq<char>, rows: Seq<Row>, c: int) -> int {
    let e = rows[row_index(rows, c)].end as int;
    if e == 0 {
        c
    } else if is_separator(s[e - 1]) && e - 1 > 0 {
        e - 2
    } else {
        e - 1
    }
}

/// The cursor after the normal-mode command `ch` at offset `c`.
pub open spec fn normal_cursor(s: Seq<char>, rows: Seq<Row>, c: int, ch: char) -> int {
    if (ch == 'l' || ch == 'w') && token_after(s, c) < s.len() {
        next_hex(s, c)
    } else if (ch == 'h' || ch == 'b') && c > 0 {
        prev_hex(s, c)
    } else if ch == 'j' && row_index(rows, c) + 1 < rows.len() {
        if down_pos(s, rows, c) == s.len() {
            s.len() - 1
        } else {
            down_pos(s, rows, c)
        }
    } else if ch == 'k' && row_index(rows, c) > 0 {
        up_pos(s, rows, c)
    } else if ch == '0' {
        rows[row_index(rows, c)].start as int
    } else if ch == '$' {
        line_end(s, rows, c)
    } else {
        c
    }
}

/// `s` without its leading separators.
pub open spec fn trim_start(s: Seq<char>) -> Seq<char>
    decreases s.len(),
{
    if s.len() > 0 && is_separator(s[0]) {
        trim_start(s.drop_first())
    } else {
        s
    }
}

/// `s` without its trailing separators.
pub open spec fn trim_end(s: Seq<char>) -> Seq<char>
    decreases s.len(),
{
    if s.len() > 0 && is_separator(s.last()) {
        trim_end(s.drop_last())
    } else {
        s
    }
}

/// Number of spaces in `s`.
pub open spec fn count_spaces(s: Seq<char>) -> nat
    decreases s.len(),
{
    if s.len() == 0 {
        0
    } else {
        count_spaces(s.drop_last()) + if s.last() == ' ' {
            1nat
        } else {
            0nat
        }
    }
}

/// Number of space-separated pieces of `s` once trimmed: the tokens of a row.
pub open spec fn tokens_in(s: Seq<char>) -> nat {
    count_spaces(trim_end(trim_start(s))) + 1
}

pub(crate) proof fn lemma_word_end(s: Seq<char>, j: int)
    requires
        0 <= j <= s.len(),
    ensures
        j <= word_end(s, j) <= s.len(),
    decreases s.len() - j,
{
    if j < s.len() && !is_separator(s[j]) {
        lemma_word_end(s, j + 1);
    }
}

pub(crate) proof fn lemma_gap_end(s: Seq<char>, j: int)
    requires
        0 <= j <= s.len(),
    ensures
        j <= gap_end(s, j) <= s.len(),
    decreases s.len() - j,
{
    if j < s.len() && is_separator(s[j]) {
        lemma_gap_end(s, j + 1);
    }
}

pub(crate) proof fn lemma_word_start(s: Seq<char>, j: int)
    requires
        0 <= j <= s.len(),
    ensures
        0 <= word_start(s, j) <= j,
    decreases j,
{
    if j > 0 && !is_separator(s[j - 1]) {
        lemma_word_start(s, j - 1);
    }
}

/// The next and previous token starts lie within the content.
pub(crate) proof fn lemma_hex_moves(s: Seq<char>, c: int)
    requires
        0 <= c <= s.len(),
    ensures
        c <= next_hex(s, c) <= s.len(),
        c < s.len() ==> c < next_hex(s, c),
        c <= token_after(s, c) <= s.len(),
        c > 0 ==> 0 <= prev_hex(s, c) <= c,
{
    lemma_word_end(s, c);
    lemma_gap_end(s, word_end(s, c));
    if c < s.len() {
        if is_separator(s[c]) {
            lemma_gap_end(s, c + 1);
        } else {
            lemma_word_end(s, c + 1);
        }
    }
    if c > 0 {
        lemma_skip_back(s, c - 1);
        lemma_word_start(s, skip_back(s, c - 1));
    }
}

pub(crate) proof fn lemma_skip_back(s: Seq<char>, j: int)
    requires
        0 <= j < s.len(),
    ensures
        0 <= skip_back(s, j) <= j,
    decreases j,
{
    if j > 0 && is_separator(s[j]) {
        lemma_skip_back(s, j - 1);
    }
}

pub(crate) proof fn lemma_up_times_range(s: Seq<char>, rows: Seq<Row>, c: int, n: nat)
    requires
        rows_wf(rows, s),
        0 <= c <= s.len(),
    ensures
        0 <= up_times(s, rows, c, n) <= s.len(),
    decreases n,
{
    if n > 0 {
        lemma_up_times_range(s, rows, c, (n - 1) as nat);
        lemma_up_pos_range(s, rows, up_times(s, rows, c, (n - 1) as nat));
    }
}

pub(crate) proof fn lemma_down_times_range(s: Seq<char>, rows: Seq<Row>, c: int, n: nat)
    requires
        rows_wf(rows, s),
        0 <= c <= s.len(),
    ensures
        0 <= down_times(s, rows, c, n) <= s.len(),
    decreases n,
{
    if n > 0 {
        lemma_down_times_range(s, rows, c, (n - 1) as nat);
        lemma_down_pos_range(s, rows, down_times(s, rows, c, (n - 1) as nat));
    }
}

/// Every normal-mode command leaves the cursor within the content.
pub(crate) proof fn lemma_normal_cursor_range(s: Seq<char>, rows: Seq<Row>, c: int, ch: char)
    requires
        rows_wf(rows, s),
        0 <= c <= s.len(),
    ensures
        0 <= normal_cursor(s, rows, c, ch) <= s.len(),
{
    lemma_row_index(rows, s, c);
    let r = row_index(rows, c);
    assert(row_measures(rows[r], s));
    assert(row_measures(rows[0], s));
    lemma_up_pos_range(s, rows, c);
    lemma_down_pos_range(s, rows, c);
    lemma_hex_moves(s, c);
}

pub(crate) proof fn lemma_count_spaces_le(s: Seq<char>)
    ensures
        count_spaces(s) <= s.len(),
    decreases s.len(),
{
    if s.len() > 0 {
        lemma_count_spaces_le(s.drop_last());
    }
}

/// Where the token after offset `c` starts, or the end of the text.
pub(crate) fn find_token_after(text: &str, c: usize) -> (r: usize)
    requires
        is_text(text@),
        c <= text@.len(),
    ensures
        r == token_after(text@, c as int),
{
    let ghost s = text@;
    let n = text_len(text);
    let mut j = c;
    while j < n && !is_separator_char(char_at(text, j))
        invariant
            s == text@,
            is_text(s),
            n == s.len(),
            c <= j <= n,
            word_end(s, c as int) == word_end(s, j as int),
        decreases n - j,
    {
        j = j + 1;
    }
    let ghost w = j as int;
    while j < n && is_separator_char(char_at(text, j))
        invariant
            s == text@,
            is_text(s),
            n == s.len(),
            w <= j <= n,
            w == word_end(s, c as int),
            gap_end(s, w) == gap_end(s, j as int),
        decreases n - j,
    {
        j = j + 1;
    }
    j
}

/// Tokens in a row of text.
pub(crate) fn count_tokens(text: &str) -> (r: usize)
    requires
        is_text(text@),
    ensures
        r == tokens_in(text@),
{
    let ghost s = text@;
    let n = text_len(text);
    let mut i: usize = 0;
    assert(s.subrange(0, n as int) =~= s);
    while i < n && is_separator_char(char_at(text, i))
        invariant
            s == text@,
            is_text(s),
            n == s.len(),
            i <= n,
            trim_start(s) == trim_start(s.subrange(i as int, n as int)),
        decreases n - i,
    {
        assert(s.subrange(i as int, n as int).drop_first() =~= s.subrange(i + 1, n as int));
        i = i + 1;
    }
    let mut j: usize = n;
    while j > i && is_separator_char(char_at(text, j - 1))
        invariant
            s == text@,
            is_text(s),
            n == s.len(),
            i <= j <= n,
            trim_start(s) == s.subrange(i as int, n as int),
            trim_end(trim_start(s)) == trim_end(s.subrange(i as int, j as int)),
        decreases j,
    {
        assert(s.subrange(i as int, j as int).drop_last() =~= s.subrange(i as int, j - 1));
        j = j - 1;
    }
    let mut k: usize = i;
    let mut cnt: usize = 0;
    assert(s.subrange(i as int, i as int) =~= Seq::<char>::empty());
    while k < j
        invariant
            s == text@,
            is_text(s),
            n == s.len(),
            i <= k <= j <= n,
            cnt == count_spaces(s.subrange(i as int, k as int)),
        decreases j - k,
    {
        assert(s.subrange(i as int, k + 1).drop_last() =~= s.subrange(i as int, k as int));
        proof {
            lemma_count_spaces_le(s.subrange(i as int, k as int));
        }
        if char_at(text, k) == ' ' {
            cnt = cnt + 1;
        }
        k = k + 1;
    }
    proof {
        if j > i {
            assert(s.subrange(i as int, j as int).drop_last() =~= s.subrange(i as int, j - 1));
            lemma_count_spaces_le(s.subrange(i as int, j - 1));
        }
    }
    cnt + 1
}

pub(crate) fn is_separator_char(c: char) -> (r: bool)
    ensures
        r == is_separator(c),
{
    c == ' ' || c == '\n'
}

pub(crate) proof fn lemma_up_pos_range(s: Seq<char>, rows: Seq<Row>, c: int)
    requires
        rows_wf(rows, s),
        0 <= c <= s.len(),
    ensures
        0 <= up_pos(s, rows, c) <= s.len(),
{
    lemma_row_index(rows, s, c);
    let r = row_index(rows, c);
    if r > 0 {
        assert(row_measures(rows[r - 1], s));
        lemma_prefix_len_le(row_text(s, rows[r - 1]), column(s, rows, c) as int);
    }
}

pub(crate) proof fn lemma_down_pos_range(s: Seq<char>, rows: Seq<Row>, c: int)
    requires
        rows_wf(rows, s),
        0 <= c <= s.len(),
    ensures
        0 <= down_pos(s, rows, c) <= s.len(),
{
    lemma_row_index(rows, s, c);
    let r = row_index(rows, c);
    if r + 1 < rows.len() {
        assert(row_measures(rows[r + 1], s));
        lemma_prefix_len_le(row_text(s, rows[r + 1]), column(s, rows, c) as int);
    }
}

/// Length of the longest prefix of `text` at most `x` columns wide, taken
/// grapheme by grapheme.
pub(crate) fn prefix(text: &str, x: usize) -> (r: usize)
    requires
        is_text(text@),
    ensures
        r == prefix_len(text@, x as int),
{
    let ghost s = text@;
    let n = text_len(text);
    let mut i: usize = 0;
    let mut acc: usize = 0;
    assert(s.skip(0) =~= s);
    while i < n
        invariant
            s == text@,
            is_text(s),
            n == s.len(),
            i <= n,
            acc <= x,
            prefix_len(s, x as int) == i + prefix_len(s.skip(i as int), x - acc),
        ensures
            prefix_len(s, x as int) == i,
        decreases n - i,
    {
        let g = first_grapheme_len(slice(text, i, n));
        let gw = str_width(slice(text, i, i + g));
        proof {
            assert(s.subrange(i as int, i + 1) =~= seq![s[i as int]]);
            assert(seq![s[i as int]].drop_last() =~= Seq::<char>::empty());
            reveal_with_fuel(text_width, 2);
            assert(s.skip(i as int)[0] == s[i as int]);
            assert(s.skip(i as int).drop_first() =~= s.skip(i + 1));
        }
        if gw > x - acc {
            break;
        }
        acc = acc + gw;
        i = i + g;
    }
    if i == n {
        assert(s.skip(i as int) =~= Seq::<char>::empty());
    }
    i
}

} // verus!
