//! Byte addresses: hex addresses typed by the user, turned into text
//! offsets, and the address labels shown in front of rows.

use vstd::prelude::*;
use crate::codec::{hex_digit, hex_digit_of};
use crate::text::push_char;

verus! {

/// Value of a hex digit of either case.
pub open spec fn digit_value(c: char) -> int {
    if '0' <= c <= '9' {
        c as int - 48
    } else if 'A' <= c <= 'F' {
        c as int - 55
    } else {
        c as int - 87
    }
}

/// The number that a string of hex digits (either case) stands for; `None`
/// if a character is not a hex digit. The empty string stands for zero.
pub open spec fn hex_value(s: Seq<char>) -> Option<int>
    decreases s.len(),
{
    if s.len() == 0 {
        Some(0)
    } else {
        match hex_value(s.drop_last()) {
            Some(v) => if crate::text::is_hex_digit(s.last()) {
                Some(16 * v + digit_value(s.last()))
            } else {
                None
            },
            None => None,
        }
    }
}

/// `v`, or the largest `usize` if it is larger.
pub open spec fn sat(v: int) -> int {
    if v <= usize::MAX {
        v
    } else {
        usize::MAX as int
    }
}

/// Text offset of a byte address written in hex: three characters per
/// token (two digits and a separator).
pub open spec fn address_offset(s: Seq<char>) -> Option<int> {
    match hex_value(s) {
        Some(v) => Some(sat(3 * v)),
        None => None,
    }
}

pub(crate) proof fn lemma_hex_value_nonneg(s: Seq<char>)
    ensures
        hex_value(s) is Some ==> hex_value(s)->Some_0 >= 0,
    decreases s.len(),
{
    if s.len() > 0 {
        lemma_hex_value_nonneg(s.drop_last());
    }
}

pub(crate) proof fn lemma_hex_prefix_none(s: Seq<char>, k: int)
    requires
        0 <= k <= s.len(),
        hex_value(s.take(k)) is None,
    ensures
        hex_value(s) is None,
    decreases s.len(),
{
    if k == s.len() {
        assert(s.take(k) =~= s);
    } else {
        assert(s.drop_last().take(k) =~= s.take(k));
        lemma_hex_prefix_none(s.drop_last(), k);
    }
}

pub(crate) proof fn lemma_hex_bad_char(s: Seq<char>, i: int)
    requires
        0 <= i < s.len(),
        !crate::text::is_hex_digit(s[i]),
    ensures
        hex_value(s) is None,
{
    assert(s.take(i + 1).drop_last() =~= s.take(i));
    assert(s.take(i + 1).last() == s[i]);
    lemma_hex_prefix_none(s, i + 1);
}

/// The text offset of the hex address `hex`: its value times three (at
/// most the largest `usize`), or `None` if a character is not a hex digit.
pub fn hex_to_cursor_pos(hex: &str) -> (r: Option<usize>)
    ensures
        match address_offset(hex@) {
            Some(p) => r == Some(p as usize),
            None => r is None,
        },
{
    broadcast use vstd::string::is_ascii_spec_bytes;
    let ghost s = hex@;
    if !hex.is_ascii() {
        proof {
            let i = choose|i: int| 0 <= i < s.len() && !('\0' <= #[trigger] s[i] <= '\u{7f}');
            lemma_hex_bad_char(s, i);
        }
        return None;
    }
    let bytes = hex.as_bytes();
    let n = bytes.len();
    let mut acc: usize = 0;
    let mut i: usize = 0;
    assert(s.take(0) =~= Seq::<char>::empty());
    while i < n
        invariant
            s == hex@,
            n == s.len(),
            bytes@ == Seq::new(s.len(), |k: int| s[k] as u8),
            vstd::utf8::is_ascii_chars(s),
            i <= n,
            hex_value(s.take(i as int)) is Some,
            acc == sat(hex_value(s.take(i as int))->Some_0),
        decreases n - i,
    {
        let c = bytes[i] as char;
        assert(c == s[i as int]);
        let ghost v = hex_value(s.take(i as int))->Some_0;
        proof {
            lemma_hex_value_nonneg(s.take(i as int));
            assert(s.take(i + 1).drop_last() =~= s.take(i as int));
            assert(s.take(i + 1).last() == c);
        }
        let d: usize = if '0' <= c && c <= '9' {
            (c as u8 - 48) as usize
        } else if 'A' <= c && c <= 'F' {
            (c as u8 - 55) as usize
        } else if 'a' <= c && c <= 'f' {
            (c as u8 - 87) as usize
        } else {
            proof {
                lemma_hex_bad_char(s, i as int);
            }
            return None;
        };
        assert(d == digit_value(c) && d < 16);
        if acc > (usize::MAX - d) / 16 {
            proof {
                assert(acc * 16 + d > usize::MAX) by (nonlinear_arith)
                    requires
                        acc > (usize::MAX - d) / 16, d < 16;
                assert(16 * v + d >= acc * 16 + d) by (nonlinear_arith)
                    requires
                        v >= acc;
            }
            acc = usize::MAX;
        } else {
            proof {
                assert(acc * 16 + d <= usize::MAX) by (nonlinear_arith)
                    requires
                        acc <= (usize::MAX - d) / 16, d < 16;
                assert(acc != usize::MAX) by (nonlinear_arith)
                    requires
                        acc <= (usize::MAX - d) / 16, d < 16;
            }
            acc = acc * 16 + d;
        }
        i = i + 1;
    }
    assert(s.take(i as int) =~= s);
    let ghost v = hex_value(s)->Some_0;
    proof {
        lemma_hex_value_nonneg(s);
    }
    if acc > usize::MAX / 3 {
        proof {
            assert(3 * v >= 3 * acc);
        }
        Some(usize::MAX)
    } else {
        Some(acc * 3)
    }
}

/// Hex digits of `n`, least significant first (none for zero).
pub open spec fn low_digits(n: nat) -> Seq<char>
    decreases n,
{
    if n == 0 {
        seq![]
    } else {
        seq![hex_digit_of((n % 16) as int)] + low_digits(n / 16)
    }
}

/// `low_digits(n)` padded with zeros to at least eight digits.
pub open spec fn padded_low(n: nat) -> Seq<char> {
    let d = low_digits(n);
    if d.len() >= 8 {
        d
    } else {
        d + Seq::new((8 - d.len()) as nat, |i: int| '0')
    }
}

/// The address label of a row: `n` in uppercase hex, at least eight digits,
/// then two spaces.
pub open spec fn address_label(n: nat) -> Seq<char> {
    padded_low(n).reverse() + seq![' ', ' ']
}

/// The address label of a row starting at byte `num`.
pub fn to_32bit_hex(num: usize) -> (r: String)
    ensures
        r@ == address_label(num as nat),
{
    let mut acc: Vec<char> = Vec::new();
    let mut res: usize = num;
    while res > 0
        invariant
            low_digits(num as nat) == acc@ + low_digits(res as nat),
        decreases res,
    {
        let d = hex_digit((res % 16) as u8);
        proof {
            assert(acc@.push(d) + low_digits((res / 16) as nat) =~= acc@ + low_digits(res as nat));
        }
        acc.push(d);
        res = res / 16;
    }
    assert(acc@ + low_digits(0) =~= acc@);
    let ghost low = acc@;
    while acc.len() < 8
        invariant
            low == low_digits(num as nat),
            acc@.len() >= low.len(),
            acc@ == low + Seq::new((acc@.len() - low.len()) as nat, |i: int| '0'),
            low.len() >= 8 ==> acc@ == low,
            low.len() < 8 ==> acc@.len() <= 8,
        decreases 8 - acc@.len(),
    {
        acc.push('0');
        assert(acc@ =~= low + Seq::new((acc@.len() - low.len()) as nat, |i: int| '0'));
    }
    assert(acc@ =~= padded_low(num as nat));
    let mut out = String::new();
    let len = acc.len();
    let mut k = len;
    while k > 0
        invariant
            len == acc@.len(),
            k <= len,
            out@.len() == len - k,
            forall|j: int| 0 <= j < len - k ==> out@[j] == acc@[len - 1 - j],
        decreases k,
    {
        k = k - 1;
        push_char(&mut out, acc[k]);
    }
    assert(out@ =~= acc@.reverse());
    push_char(&mut out, ' ');
    push_char(&mut out, ' ');
    assert(out@ =~= address_label(num as nat));
    out
}

} // verus!
