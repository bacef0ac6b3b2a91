//! Reading header values as text: decimal lengths and transfer codings.

use crate::headers::{lowered, lowered_byte};
use vstd::prelude::*;

verus! {

/// An ASCII decimal digit.
pub open spec fn is_digit(b: u8) -> bool {
    48 <= b <= 57
}

/// Every byte is a decimal digit.
pub open spec fn all_digits(s: Seq<u8>) -> bool {
    forall|i: int| 0 <= i < s.len() ==> is_digit(#[trigger] s[i])
}

/// The number that a string of decimal digits writes.
pub open spec fn decimal_value(s: Seq<u8>) -> nat
    decreases s.len(),
{
    if s.len() == 0 {
        0
    } else {
        (decimal_value(s.drop_last()) * 10 + (s.last() - 48)) as nat
    }
}

/// The digits of a number once an optional leading `+` is taken off.
pub open spec fn unsigned_digits(bytes: Seq<u8>) -> Seq<u8> {
    if bytes.len() > 0 && bytes[0] == 43 {
        bytes.skip(1)
    } else {
        bytes
    }
}

/// The 64-bit number that `bytes` writes in decimal: an optional `+`, then at
/// least one digit and nothing else. `None` when the text is anything else or
/// the number does not fit.
pub open spec fn parsed_u64(bytes: Seq<u8>) -> Option<u64> {
    let digits = unsigned_digits(bytes);
    if digits.len() > 0 && all_digits(digits) && decimal_value(digits) <= u64::MAX {
        Some(decimal_value(digits) as u64)
    } else {
        None
    }
}

/// A printable ASCII byte, or a tab.
pub open spec fn is_visible_ascii(b: u8) -> bool {
    (32 <= b < 127) || b == 9
}

/// Every byte is printable ASCII or a tab.
pub open spec fn visible_text(bytes: Seq<u8>) -> bool {
    forall|i: int| 0 <= i < bytes.len() ==> is_visible_ascii(#[trigger] bytes[i])
}

/// `chunked`
pub open spec fn chunked_token() -> Seq<u8> {
    seq![99u8, 104, 117, 110, 107, 101, 100]
}

/// `chunked` stands at position `i`, in any letter case.
pub open spec fn token_at(bytes: Seq<u8>, i: int) -> bool {
    &&& 0 <= i
    &&& i + 7 <= bytes.len()
    &&& lowered(bytes.subrange(i, i + 7)) == chunked_token()
}

/// The text mentions `chunked` somewhere, in any letter case.
pub open spec fn mentions_chunked(bytes: Seq<u8>) -> bool {
    exists|i: int| token_at(bytes, i)
}

/// A longer digit string never writes a smaller number than its prefix.
pub proof fn lemma_decimal_value_grows(s: Seq<u8>, k: int)
    requires
        0 <= k <= s.len(),
        all_digits(s),
    ensures
        decimal_value(s.take(k)) <= decimal_value(s),
    decreases s.len() - k,
{
    if k == s.len() {
        assert(s.take(k) == s);
    } else {
        lemma_decimal_value_grows(s.drop_last(), k);
        assert(s.drop_last().take(k) == s.take(k));
        assert(is_digit(s.last()));
    }
}

/// Reads a decimal 64-bit number.
pub fn parse_u64(bytes: &[u8]) -> (r: Option<u64>)
    ensures
        r == parsed_u64(bytes@),
{
    let n = bytes.len();
    let start: usize = if n > 0 && bytes[0] == 43 { 1 } else { 0 };
    let ghost digits = unsigned_digits(bytes@);
    assert(digits == bytes@.skip(start as int));
    if start == n {
        return None;
    }
    let mut i: usize = start;
    let mut acc: u64 = 0;
    assert(digits.take(0) =~= Seq::<u8>::empty());
    while i < n
        invariant
            n == bytes@.len(),
            start <= i <= n,
            start < n,
            digits == bytes@.skip(start as int),
            digits == unsigned_digits(bytes@),
            all_digits(digits.take(i - start)),
            acc == decimal_value(digits.take(i - start)),
        decreases n - i,
    {
        let b = bytes[i];
        let ghost k = i - start;
        assert(digits[k] == b);
        if b < 48 || b > 57 {
            assert(!is_digit(digits[k]));
            return None;
        }
        let d: u64 = (b - 48) as u64;
        assert(digits.take(k + 1).drop_last() =~= digits.take(k));
        assert(digits.take(k + 1).last() == b);
        assert(decimal_value(digits.take(k + 1)) == acc * 10 + d);
        assert(all_digits(digits.take(k + 1))) by {
            assert forall|j: int| 0 <= j < k + 1 implies is_digit(#[trigger] digits.take(k + 1)[j]) by {
                if j < k {
                    assert(digits.take(k + 1)[j] == digits.take(k)[j]);
                }
            }
        }
        if acc > (u64::MAX - d) / 10 {
            proof {
                if all_digits(digits) {
                    lemma_decimal_value_grows(digits, k + 1);
                }
            }
            return None;
        }
        acc = acc * 10 + d;
        i += 1;
    }
    assert(digits.take(i - start) == digits);
    Some(acc)
}

/// ASCII lower case of one byte.
pub fn lower(b: u8) -> (r: u8)
    ensures
        r == lowered_byte(b),
{
    if 65 <= b && b <= 90 {
        b + 32
    } else {
        b
    }
}

/// Whether every byte is printable ASCII or a tab.
pub fn is_visible_text(bytes: &[u8]) -> (r: bool)
    ensures
        r == visible_text(bytes@),
{
    let mut i: usize = 0;
    while i < bytes.len()
        invariant
            i <= bytes@.len(),
            forall|j: int| 0 <= j < i ==> is_visible_ascii(#[trigger] bytes@[j]),
        decreases bytes@.len() - i,
    {
        let b = bytes[i];
        if !((32 <= b && b < 127) || b == 9) {
            return false;
        }
        i += 1;
    }
    true
}

fn token_here(bytes: &[u8], i: usize) -> (r: bool)
    requires
        i + 7 <= bytes@.len(),
    ensures
        r == token_at(bytes@, i as int),
{
    let r = lower(bytes[i]) == 99 && lower(bytes[i + 1]) == 104 && lower(bytes[i + 2]) == 117
        && lower(bytes[i + 3]) == 110 && lower(bytes[i + 4]) == 107 && lower(bytes[i + 5]) == 101
        && lower(bytes[i + 6]) == 100;
    proof {
        let sub = lowered(bytes@.subrange(i as int, i + 7));
        let token = chunked_token();
        assert(sub.len() == 7 && token.len() == 7);
        assert(forall|k: int| 0 <= k < 7 ==> sub[k] == lowered_byte(bytes@[i + k]));
        if r {
            assert(sub =~= token);
        } else {
            assert(sub[0] == lowered_byte(bytes@[i + 0]));
            assert(sub[1] == lowered_byte(bytes@[i + 1]));
            assert(sub[2] == lowered_byte(bytes@[i + 2]));
            assert(sub[3] == lowered_byte(bytes@[i + 3]));
            assert(sub[4] == lowered_byte(bytes@[i + 4]));
            assert(sub[5] == lowered_byte(bytes@[i + 5]));
            assert(sub[6] == lowered_byte(bytes@[i + 6]));
            assert(token[0] == 99 && token[1] == 104 && token[2] == 117 && token[3] == 110
                && token[4] == 107 && token[5] == 101 && token[6] == 100);
        }
    }
    r
}

/// Whether the text mentions `chunked`, in any letter case.
pub fn has_chunked_token(bytes: &[u8]) -> (r: bool)
    ensures
        r == mentions_chunked(bytes@),
{
    let n = bytes.len();
    if n < 7 {
        return false;
    }
    let mut i: usize = 0;
    while i <= n - 7
        invariant
            n == bytes@.len(),
            n >= 7,
            i <= n - 6,
            forall|j: int| 0 <= j < i ==> !token_at(bytes@, j),
        decreases n - 6 - i,
    {
        if token_here(bytes, i) {
            return true;
        }
        i += 1;
    }
    false
}

} // verus!
