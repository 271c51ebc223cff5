//! The characters that an editor's content is made of, their display widths,
//! and the calls into the Unicode crates that measure them.

use vstd::prelude::*;
use vstd::string::StringSliceAdditionalSpecFns;
use unicode_segmentation::UnicodeSegmentation;
use unicode_width::UnicodeWidthStr;

verus! {

/// A hexadecimal digit, in either case.
pub open spec fn is_hex_digit(c: char) -> bool {
    ('0' <= c && c <= '9') || ('A' <= c && c <= 'F') || ('a' <= c && c <= 'f')
}

/// An uppercase hexadecimal digit: the digits that canonical hex text uses.
pub open spec fn is_upper_hex_digit(c: char) -> bool {
    ('0' <= c && c <= '9') || ('A' <= c && c <= 'F')
}

/// The characters that separate hex tokens in an editor's content.
pub open spec fn is_separator(c: char) -> bool {
    c == ' ' || c == '\n'
}

/// A character that may stand in an editor's content.
pub open spec fn is_text_char(c: char) -> bool {
    is_hex_digit(c) || is_separator(c)
}

/// Content text: hex digits, spaces and line breaks only.
pub open spec fn is_text(s: Seq<char>) -> bool {
    forall|i: int| 0 <= i < s.len() ==> is_text_char(#[trigger] s[i])
}

/// Display width of one content character: a line break takes no column.
pub open spec fn char_width(c: char) -> nat {
    if c == '\n' { 0 } else { 1 }
}

/// Display width of a content text: one column per character but line breaks.
pub open spec fn text_width(s: Seq<char>) -> nat
    decreases s.len(),
{
    if s.len() == 0 {
        0
    } else {
        text_width(s.drop_last()) + char_width(s.last())
    }
}

pub(crate) proof fn lemma_text_ascii(s: Seq<char>)
    requires
        is_text(s),
    ensures
        vstd::utf8::is_ascii_chars(s),
{
    assert forall|i: int| 0 <= i < s.len() implies '\0' <= #[trigger] s[i] <= '\u{7f}' by {
        assert(is_text_char(s[i]));
    }
}

pub(crate) proof fn lemma_text_subrange(s: Seq<char>, a: int, b: int)
    requires
        is_text(s),
        0 <= a <= b <= s.len(),
    ensures
        is_text(s.subrange(a, b)),
{
    assert forall|i: int| 0 <= i < b - a implies is_text_char(#[trigger] s.subrange(a, b)[i]) by {
        assert(s.subrange(a, b)[i] == s[a + i]);
    }
}

/// The width of a text is the width of its first part plus that of the rest.
pub(crate) proof fn lemma_text_width_concat(a: Seq<char>, b: Seq<char>)
    ensures
        text_width(a + b) == text_width(a) + text_width(b),
    decreases b.len(),
{
    if b.len() == 0 {
        assert(a + b =~= a);
    } else {
        lemma_text_width_concat(a, b.drop_last());
        assert((a + b).drop_last() =~= a + b.drop_last());
    }
}

/// Width of `s[a..b + 1]` from that of `s[a..b]`.
pub(crate) proof fn lemma_text_width_extend(s: Seq<char>, a: int, b: int)
    requires
        0 <= a <= b < s.len(),
    ensures
        text_width(s.subrange(a, b + 1)) == text_width(s.subrange(a, b)) + char_width(s[b]),
{
    assert(s.subrange(a, b + 1).drop_last() =~= s.subrange(a, b));
}

/// Two content texts joined are a content text.
pub(crate) proof fn lemma_text_concat(a: Seq<char>, b: Seq<char>)
    requires
        is_text(a),
        is_text(b),
    ensures
        is_text(a + b),
{
    assert forall|i: int| 0 <= i < (a + b).len() implies crate::text::is_text_char(
        #[trigger] (a + b)[i],
    ) by {
        if i < a.len() {
            assert((a + b)[i] == a[i]);
        } else {
            assert((a + b)[i] == b[i - a.len()]);
        }
    }
}

/// Number of characters of a content text.
pub fn text_len(s: &str) -> (n: usize)
    requires
        is_text(s@),
    ensures
        n == s@.len(),
{
    broadcast use vstd::string::is_ascii_spec_bytes;
    proof {
        lemma_text_ascii(s@);
        assert(vstd::string::is_ascii(s));
    }
    let b = s.as_bytes();
    b.len()
}

/// The character at position `i` of a content text, read in constant time.
pub fn char_at(s: &str, i: usize) -> (c: char)
    requires
        is_text(s@),
        i < s@.len(),
    ensures
        c == s@[i as int],
{
    proof {
        lemma_text_ascii(s@);
    }
    let b = s.get_ascii(i);
    assert(s@[i as int] == '\0' || s@[i as int] != '\0');
    b as char
}

/// The part `[a, b)` of a content text.
pub fn slice(s: &str, a: usize, b: usize) -> (r: &str)
    requires
        is_text(s@),
        a <= b <= s@.len(),
    ensures
        r@ == s@.subrange(a as int, b as int),
        is_text(r@),
{
    proof {
        lemma_text_ascii(s@);
        lemma_text_subrange(s@, a as int, b as int);
    }
    s.substring_ascii(a, b)
}

/// Length of the longest prefix of `s` that is at most `x` columns wide.
pub open spec fn prefix_len(s: Seq<char>, x: int) -> nat
    decreases s.len(),
{
    if s.len() == 0 || char_width(s[0]) > x {
        0
    } else {
        1 + prefix_len(s.drop_first(), x - char_width(s[0]))
    }
}

pub(crate) proof fn lemma_prefix_len_le(s: Seq<char>, x: int)
    ensures
        prefix_len(s, x) <= s.len(),
    decreases s.len(),
{
    if s.len() > 0 {
        lemma_prefix_len_le(s.drop_first(), x - char_width(s[0]));
    }
}

/// Relies on `UnicodeWidthStr::width` (unicode-width): on these characters
/// every one below U+00A0 but `'\n'` takes one column and `'\n'` none.
#[verifier::external_body]
pub(crate) fn str_width(s: &str) -> (r: usize)
    requires
        is_text(s@),
    ensures
        r == text_width(s@),
{
    s.width()
}

/// Relies on `UnicodeSegmentation::graphemes` (unicode-segmentation), extended
/// clusters: between two such characters there is always a cluster boundary,
/// so the first grapheme of a content text is its first character.
#[verifier::external_body]
pub(crate) fn first_grapheme_len(s: &str) -> (r: usize)
    requires
        is_text(s@),
    ensures
        s@.len() == 0 ==> r == 0,
        s@.len() > 0 ==> r == 1,
{
    match s.graphemes(true).next() {
        Some(g) => g.len(),
        None => 0,
    }
}

/// Relies on `UnicodeSegmentation::graphemes` (unicode-segmentation), taken
/// from the back: the last grapheme of a content text is its last character.
#[verifier::external_body]
pub(crate) fn last_grapheme_len(s: &str) -> (r: usize)
    requires
        is_text(s@),
    ensures
        s@.len() == 0 ==> r == 0,
        s@.len() > 0 ==> r == 1,
{
    match s.graphemes(true).next_back() {
        Some(g) => g.len(),
        None => 0,
    }
}

/// Relies on `String::replace_range`: in an ASCII string byte offsets are
/// character offsets, so the one character at `i` becomes `c`.
#[verifier::external_body]
pub(crate) fn replace_char(s: &mut String, i: usize, c: char)
    requires
        vstd::utf8::is_ascii_chars(old(s)@),
        i < old(s)@.len(),
    ensures
        final(s)@ == old(s)@.update(i as int, c),
{
    let st = c.to_string();
    s.replace_range(i..i + 1, &st);
}

/// The first character of the uppercase form of `c`.
pub uninterp spec fn upper_first(c: char) -> char;

/// Relies on `char::to_uppercase`: its first character; an ASCII lowercase
/// letter maps to its capital, any other ASCII character to itself.
#[verifier::external_body]
pub(crate) fn first_uppercase(c: char) -> (r: char)
    ensures
        r == upper_first(c),
        'a' <= c <= 'z' ==> r as u32 == c as u32 - 32,
        (c as u32) < 128 && !('a' <= c <= 'z') ==> r == c,
{
    c.to_uppercase().next().unwrap_or(c)
}

/// Relies on `String::push`: appends one character.
#[verifier::external_body]
pub(crate) fn push_char(s: &mut String, c: char)
    ensures
        final(s)@ == old(s)@.push(c),
{
    s.push(c)
}

} // verus!
