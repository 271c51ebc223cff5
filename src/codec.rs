//! Lossless conversion between bytes and their hex text: two uppercase hex
//! digits per byte, tokens separated by single spaces.

use vstd::prelude::*;
use crate::text::{is_upper_hex_digit, push_char};

verus! {

/// The uppercase hex digit of a value below 16.
pub open spec fn hex_digit_of(n: int) -> char {
    if n < 10 {
        ((48 + n) as u8) as char
    } else {
        ((55 + n) as u8) as char
    }
}

/// The value of an uppercase hex digit.
pub open spec fn nibble_of(c: char) -> int {
    if c <= '9' {
        c as int - 48
    } else {
        c as int - 55
    }
}

/// The two-character token of one byte.
pub open spec fn hex_pair(b: u8) -> Seq<char> {
    seq![hex_digit_of(b as int / 16), hex_digit_of(b as int % 16)]
}

/// The hex text of a byte sequence: its tokens in order, joined by one space.
pub open spec fn hex_text(bs: Seq<u8>) -> Seq<char>
    decreases bs.len(),
{
    if bs.len() == 0 {
        seq![]
    } else if bs.len() == 1 {
        hex_pair(bs[0])
    } else {
        hex_pair(bs[0]) + seq![' '] + hex_text(bs.drop_first())
    }
}

/// Whitespace that separates tokens when hex text is read back.
pub open spec fn is_blank(c: char) -> bool {
    c == ' ' || c == '\n' || c == '\t' || c == '\r'
}

/// Length of the token at the front of `s` (zero when `s` starts with a blank).
pub open spec fn token_len(s: Seq<char>) -> nat
    decreases s.len(),
{
    if s.len() == 0 || is_blank(s[0]) {
        0
    } else {
        1 + token_len(s.drop_first())
    }
}

/// The byte that a token stands for: exactly two uppercase hex digits.
pub open spec fn token_value(t: Seq<char>) -> Option<u8> {
    if t.len() == 2 && is_upper_hex_digit(t[0]) && is_upper_hex_digit(t[1]) {
        Some((nibble_of(t[0]) * 16 + nibble_of(t[1])) as u8)
    } else {
        None
    }
}

/// The bytes that a hex text stands for, or `None` when one of its
/// blank-separated tokens is not a valid two-digit token.
pub open spec fn decoded(s: Seq<char>) -> Option<Seq<u8>>
    decreases s.len(),
    via decoded_decreases
{
    if s.len() == 0 {
        Some(seq![])
    } else if is_blank(s[0]) {
        decoded(s.drop_first())
    } else {
        let n = token_len(s);
        match token_value(s.take(n as int)) {
            Some(b) => match decoded(s.skip(n as int)) {
                Some(rest) => Some(seq![b] + rest),
                None => None,
            },
            None => None,
        }
    }
}

proof fn lemma_token_len_bounds(s: Seq<char>)
    ensures
        token_len(s) <= s.len(),
        s.len() > 0 && !is_blank(s[0]) ==> token_len(s) >= 1,
    decreases s.len(),
{
    if s.len() > 0 && !is_blank(s[0]) {
        lemma_token_len_bounds(s.drop_first());
    }
}

#[via_fn]
proof fn decoded_decreases(s: Seq<char>) {
    lemma_token_len_bounds(s);
}

pub open spec fn prepend(p: Seq<u8>, o: Option<Seq<u8>>) -> Option<Seq<u8>> {
    match o {
        Some(r) => Some(p + r),
        None => None,
    }
}

/// Reading hex text back failed.
#[derive(Debug, Clone, Copy, PartialEq, Eq, Structural)]
pub enum DecodeError {
    /// A token is not two uppercase hex digits.
    InvalidToken,
}

/// Lookup table from each ASCII character to its hex digit value, built once
/// and used to read tokens back in constant time.
pub struct HexCache {
    digits: Vec<Option<u8>>,
}

pub open spec fn digit_entry(code: int) -> Option<u8> {
    if 48 <= code <= 57 {
        Some((code - 48) as u8)
    } else if 65 <= code <= 70 {
        Some((code - 55) as u8)
    } else {
        None
    }
}

impl HexCache {
    pub closed spec fn wf(&self) -> bool {
        &&& self.digits@.len() == 128
        &&& forall|i: int| 0 <= i < 128 ==> #[trigger] self.digits@[i] == digit_entry(i)
    }

    /// Builds the table.
    pub fn new() -> (r: HexCache)
        ensures
            r.wf(),
    {
        let mut digits: Vec<Option<u8>> = Vec::new();
        let mut i: u8 = 0;
        while i < 128
            invariant
                i <= 128,
                digits@.len() == i,
                forall|k: int| 0 <= k < i ==> #[trigger] digits@[k] == digit_entry(k),
            decreases 128 - i,
        {
            let e = if 48 <= i && i <= 57 {
                Some(i - 48)
            } else if 65 <= i && i <= 70 {
                Some(i - 55)
            } else {
                None
            };
            digits.push(e);
            i = i + 1;
        }
        HexCache { digits }
    }

    /// The byte of the token made of `hi` and `lo`, if it is one.
    pub fn lookup(&self, hi: char, lo: char) -> (r: Option<u8>)
        requires
            self.wf(),
        ensures
            r == token_value(seq![hi, lo]),
    {
        let h = hi as u32;
        let l = lo as u32;
        if h >= 128 || l >= 128 {
            return None;
        }
        match (self.digits[h as usize], self.digits[l as usize]) {
            (Some(a), Some(b)) => {
                assert(is_upper_hex_digit(hi) && is_upper_hex_digit(lo));
                Some(a * 16 + b)
            },
            _ => None,
        }
    }
}

/// The uppercase hex digit of a value below 16.
pub fn hex_digit(n: u8) -> (c: char)
    requires
        n < 16,
    ensures
        c == hex_digit_of(n as int),
{
    if n < 10 {
        (48 + n) as char
    } else {
        (55 + n) as char
    }
}

/// The two-digit uppercase token of one byte.
pub fn byte_to_hex(b: u8) -> (r: String)
    ensures
        r@ == hex_pair(b),
{
    let mut r = String::new();
    push_char(&mut r, hex_digit(b / 16));
    push_char(&mut r, hex_digit(b % 16));
    assert(r@ =~= hex_pair(b));
    r
}

proof fn lemma_hex_text_push(p: Seq<u8>, b: u8)
    ensures
        hex_text(p.push(b)) == if p.len() == 0 {
            hex_pair(b)
        } else {
            hex_text(p) + seq![' '] + hex_text(seq![b])
        },
    decreases p.len(),
{
    if p.len() == 0 {
        assert(p.push(b) =~= seq![b]);
    } else if p.len() == 1 {
        assert(p.push(b).drop_first() =~= seq![b]);
    } else {
        assert(p.push(b).drop_first() =~= p.drop_first().push(b));
        lemma_hex_text_push(p.drop_first(), b);
        assert(hex_text(p.push(b)) =~= hex_text(p) + seq![' '] + hex_text(seq![b]));
    }
}

/// Hex text of `bytes`: each byte as two uppercase hex digits, in order,
/// separated by single spaces.
pub fn encode(bytes: &[u8]) -> (r: String)
    ensures
        r@ == hex_text(bytes@),
{
    let mut r = String::new();
    let mut i: usize = 0;
    while i < bytes.len()
        invariant
            i <= bytes@.len(),
            r@ == hex_text(bytes@.take(i as int)),
        decreases bytes@.len() - i,
    {
        let b = bytes[i];
        proof {
            lemma_hex_text_push(bytes@.take(i as int), b);
            assert(bytes@.take(i as int).push(b) =~= bytes@.take(i + 1));
        }
        if i > 0 {
            push_char(&mut r, ' ');
        }
        push_char(&mut r, hex_digit(b / 16));
        push_char(&mut r, hex_digit(b % 16));
        assert(r@ =~= hex_text(bytes@.take(i + 1)));
        i = i + 1;
    }
    assert(bytes@.take(i as int) =~= bytes@);
    r
}

proof fn lemma_token_len_props(s: Seq<char>)
    ensures
        token_len(s) <= s.len(),
        forall|j: int| 0 <= j < token_len(s) ==> !is_blank(#[trigger] s[j]),
        token_len(s) < s.len() ==> is_blank(s[token_len(s) as int]),
    decreases s.len(),
{
    if s.len() > 0 && !is_blank(s[0]) {
        let t = s.drop_first();
        lemma_token_len_props(t);
        assert forall|j: int| 0 <= j < token_len(s) implies !is_blank(#[trigger] s[j]) by {
            if j > 0 {
                assert(s[j] == t[j - 1]);
            }
        }
    }
}

proof fn lemma_token_len_is(s: Seq<char>, k: int)
    requires
        0 <= k <= s.len(),
        forall|j: int| 0 <= j < k ==> !is_blank(#[trigger] s[j]),
        k == s.len() || is_blank(s[k]),
    ensures
        token_len(s) == k,
    decreases k,
{
    if k > 0 {
        let t = s.drop_first();
        assert forall|j: int| 0 <= j < k - 1 implies !is_blank(#[trigger] t[j]) by {
            assert(t[j] == s[j + 1]);
        }
        if k < s.len() {
            assert(t[k - 1] == s[k]);
        }
        lemma_token_len_is(t, k - 1);
    }
}

/// A character that is neither blank nor an uppercase hex digit makes the
/// whole text fail to decode.
proof fn lemma_bad_char(s: Seq<char>, i: int)
    requires
        0 <= i < s.len(),
        !is_blank(s[i]),
        !is_upper_hex_digit(s[i]),
    ensures
        decoded(s) is None,
    decreases s.len(),
{
    if is_blank(s[0]) {
        assert(s.drop_first()[i - 1] == s[i]);
        lemma_bad_char(s.drop_first(), i - 1);
    } else {
        let n = token_len(s);
        lemma_token_len_props(s);
        lemma_token_len_bounds(s);
        if i < n {
            assert(s.take(n as int)[i] == s[i]);
        } else {
            assert(i != n);
            assert(s.skip(n as int)[i - n] == s[i]);
            lemma_bad_char(s.skip(n as int), i - n);
        }
    }
}

proof fn lemma_nibble_of_digit(n: int)
    requires
        0 <= n < 16,
    ensures
        is_upper_hex_digit(hex_digit_of(n)),
        nibble_of(hex_digit_of(n)) == n,
        !is_blank(hex_digit_of(n)),
{
}

/// Decoding the hex text of any byte sequence gives back exactly those bytes.
pub proof fn lemma_round_trip(bs: Seq<u8>)
    ensures
        decoded(hex_text(bs)) == Some(bs),
    decreases bs.len(),
{
    if bs.len() > 0 {
        let s = hex_text(bs);
        let b = bs[0];
        lemma_nibble_of_digit(b as int / 16);
        lemma_nibble_of_digit(b as int % 16);
        assert(s[0] == hex_digit_of(b as int / 16));
        assert(s[1] == hex_digit_of(b as int % 16));
        if bs.len() == 1 {
            lemma_token_len_is(s, 2);
            assert(s.take(2) =~= hex_pair(b));
            assert(token_value(s.take(2)) == Some(b));
            assert(s.skip(2) =~= Seq::<char>::empty());
            assert(decoded(s.skip(2)) == Some(Seq::<u8>::empty()));
            assert(seq![b] + Seq::<u8>::empty() =~= bs);
            assert(decoded(s) == Some(bs));
        } else {
            let rest = bs.drop_first();
            assert(s[2] == ' ');
            lemma_token_len_is(s, 2);
            assert(s.take(2) =~= hex_pair(b));
            assert(s.skip(2).drop_first() =~= hex_text(rest));
            lemma_round_trip(rest);
            assert(seq![b] + rest =~= bs);
        }
    }
}

/// The bytes of a hex text. All or nothing: any token that is not two
/// uppercase hex digits gives `InvalidToken` and no bytes.
pub fn decode(text: &str, cache: &HexCache) -> (r: Result<Vec<u8>, DecodeError>)
    requires
        cache.wf(),
    ensures
        match decoded(text@) {
            Some(bs) => r is Ok && r->Ok_0@ == bs,
            None => r == Err::<Vec<u8>, DecodeError>(DecodeError::InvalidToken),
        },
{
    broadcast use vstd::string::is_ascii_spec_bytes;
    let ghost s = text@;
    if !text.is_ascii() {
        proof {
            let i = choose|i: int| 0 <= i < s.len() && !('\0' <= #[trigger] s[i] <= '\u{7f}');
            lemma_bad_char(s, i);
        }
        return Err(DecodeError::InvalidToken);
    }
    let bytes = text.as_bytes();
    let n = bytes.len();
    assert(n == s.len());
    let mut out: Vec<u8> = Vec::new();
    let mut i: usize = 0;
    assert(s.skip(0) =~= s);
    assert(Seq::<u8>::empty() + decoded(s).unwrap_or(Seq::empty()) =~= decoded(s).unwrap_or(Seq::empty()));
    while i < n
        invariant
            s == text@,
            n == s.len(),
            bytes@ == Seq::new(s.len(), |k: int| s[k] as u8),
            vstd::utf8::is_ascii_chars(s),
            cache.wf(),
            i <= n,
            decoded(s) == prepend(out@, decoded(s.skip(i as int))),
        decreases n - i,
    {
        let c = bytes[i] as char;
        assert(c == s[i as int]);
        if c == ' ' || c == '\n' || c == '\t' || c == '\r' {
            assert(s.skip(i as int).drop_first() =~= s.skip(i + 1));
            i = i + 1;
        } else {
            let mut j: usize = i + 1;
            while j < n && !(bytes[j] == 32 || bytes[j] == 10 || bytes[j] == 9 || bytes[j] == 13)
                invariant
                    n == s.len(),
                    bytes@ == Seq::new(s.len(), |k: int| s[k] as u8),
                    vstd::utf8::is_ascii_chars(s),
                    i < j <= n,
                    forall|k: int| i <= k < j ==> !is_blank(#[trigger] s[k]),
                decreases n - j,
            {
                assert(bytes[j as int] as char == s[j as int]);
                j = j + 1;
            }
            let ghost t = s.skip(i as int);
            proof {
                if j < n {
                    assert(bytes[j as int] as char == s[j as int]);
                    assert(t[j - i] == s[j as int]);
                }
                assert forall|k: int| 0 <= k < j - i implies !is_blank(#[trigger] t[k]) by {
                    assert(t[k] == s[i + k]);
                }
                lemma_token_len_is(t, j - i);
            }
            assert(t[0] == s[i as int]);
            if j - i != 2 {
                assert(decoded(t) is None);
                return Err(DecodeError::InvalidToken);
            }
            let lo = bytes[i + 1] as char;
            assert(lo == s[i + 1]);
            assert(t.take(2) =~= seq![c, lo]);
            match cache.lookup(c, lo) {
                Some(b) => {
                    proof {
                        assert(t.skip(2) =~= s.skip(j as int));
                        let d = decoded(s.skip(j as int));
                        if d is Some {
                            assert(out@ + (seq![b] + d->Some_0) =~= out@.push(b) + d->Some_0);
                        }
                    }
                    out.push(b);
                    i = j;
                },
                None => {
                    assert(decoded(t) is None);
                    return Err(DecodeError::InvalidToken);
                },
            }
        }
    }
    assert(s.skip(i as int) =~= Seq::<char>::empty());
    assert(out@ + Seq::<u8>::empty() =~= out@);
    Ok(out)
}

} // verus!
