//! Bytes as hexadecimal text.

use crate::text::chars_of;
use vstd::prelude::*;

verus! {

/// The lowercase hexadecimal digit for `d`.
pub open spec fn hex_digit(d: int) -> char {
    if d < 10 {
        (48 + d) as char
    } else {
        (87 + d) as char
    }
}

/// The digit at `k` of the text that spells the bytes: each byte is two digits, the high one
/// first.
pub open spec fn hex_text_at(bytes: Seq<u8>, k: int) -> char {
    if k % 2 == 0 {
        hex_digit(bytes[k / 2] as int / 16)
    } else {
        hex_digit(bytes[k / 2] as int % 16)
    }
}

/// The bytes as lowercase hexadecimal text.
pub open spec fn hex_text(bytes: Seq<u8>) -> Seq<char> {
    Seq::new(2 * bytes.len(), |k: int| hex_text_at(bytes, k))
}

/// The value of a hexadecimal digit of either case.
pub open spec fn hex_value(c: char) -> Option<int> {
    if '0' <= c <= '9' {
        Some(c as int - 48)
    } else if 'a' <= c <= 'f' {
        Some(c as int - 87)
    } else if 'A' <= c <= 'F' {
        Some(c as int - 55)
    } else {
        None
    }
}

/// Whether the text spells bytes: two hexadecimal digits each.
pub open spec fn is_hex(text: Seq<char>) -> bool {
    &&& text.len() % 2 == 0
    &&& forall|k: int| 0 <= k < text.len() ==> hex_value(#[trigger] text[k]) is Some
}

/// The byte at `k` of those that the text spells.
pub open spec fn hex_byte_at(text: Seq<char>, k: int) -> u8 {
    (16 * hex_value(text[2 * k])->0 + hex_value(text[2 * k + 1])->0) as u8
}

/// The bytes that the text spells.
pub open spec fn hex_bytes(text: Seq<char>) -> Seq<u8> {
    Seq::new(text.len() / 2, |k: int| hex_byte_at(text, k))
}

/// What is written in lowercase hexadecimal reads back as the bytes that were written.
pub proof fn law_hex_round_trip(bytes: Seq<u8>)
    ensures
        is_hex(hex_text(bytes)),
        hex_bytes(hex_text(bytes)) == bytes,
{
    let text = hex_text(bytes);
    assert forall|k: int| 0 <= k < text.len() implies hex_value(#[trigger] text[k]) is Some by {
        assert(text[k] == hex_text_at(bytes, k));
    }
    assert forall|k: int| 0 <= k < bytes.len() implies #[trigger] hex_byte_at(text, k) == bytes[k] by {
        assert(text[2 * k] == hex_text_at(bytes, 2 * k));
        assert(text[2 * k + 1] == hex_text_at(bytes, 2 * k + 1));
    }
    assert(hex_bytes(text) =~= bytes);
}

/// Different bytes are written differently.
pub proof fn law_hex_text_injective(a: Seq<u8>, b: Seq<u8>)
    requires
        hex_text(a) == hex_text(b),
    ensures
        a == b,
{
    law_hex_round_trip(a);
    law_hex_round_trip(b);
}

fn digit_for(d: u8) -> (res: char)
    requires
        d < 16,
    ensures
        res == hex_digit(d as int),
{
    if d < 10 {
        (48 + d) as char
    } else {
        (87 + d) as char
    }
}

/// Writes bytes in lowercase hexadecimal.
pub fn hex_encode(bytes: &[u8]) -> (res: String)
    ensures
        res@ == hex_text(bytes@),
{
    let mut res = String::new();
    let mut k: usize = 0;
    while k < bytes.len()
        invariant
            k <= bytes.len(),
            res@ =~= hex_text(bytes@).take(2 * k),
        decreases bytes.len() - k,
    {
        let b = bytes[k];
        res.push(digit_for(b / 16));
        res.push(digit_for(b % 16));
        proof {
            assert(hex_text(bytes@)[2 * k] == hex_text_at(bytes@, 2 * k));
            assert(hex_text(bytes@)[2 * k + 1] == hex_text_at(bytes@, 2 * k + 1));
        }
        k += 1;
    }
    res
}

fn value_of(c: char) -> (res: Option<u8>)
    ensures
        match res {
            Some(v) => v < 16 && hex_value(c) == Some(v as int),
            None => hex_value(c) is None,
        },
{
    if '0' <= c && c <= '9' {
        Some((c as u32 - 48) as u8)
    } else if 'a' <= c && c <= 'f' {
        Some((c as u32 - 87) as u8)
    } else if 'A' <= c && c <= 'F' {
        Some((c as u32 - 55) as u8)
    } else {
        None
    }
}

/// Reads bytes from hexadecimal text of either case.
pub fn hex_decode(s: &str) -> (res: Option<Vec<u8>>)
    ensures
        match res {
            Some(bytes) => is_hex(s@) && bytes@ == hex_bytes(s@),
            None => !is_hex(s@),
        },
{
    let chars = chars_of(s);
    if chars.len() % 2 != 0 {
        return None;
    }
    let mut res: Vec<u8> = Vec::new();
    let mut i: usize = 0;
    while i < chars.len()
        invariant
            chars@ == s@,
            chars.len() % 2 == 0,
            i % 2 == 0,
            i <= chars.len(),
            forall|k: int| 0 <= k < i ==> hex_value(#[trigger] s@[k]) is Some,
            res@ =~= hex_bytes(s@).take(i as int / 2),
        decreases chars.len() - i,
    {
        let high = match value_of(chars[i]) {
            Some(v) => v,
            None => {
                return None;
            },
        };
        let low = match value_of(chars[i + 1]) {
            Some(v) => v,
            None => {
                return None;
            },
        };
        res.push(high * 16 + low);
        proof {
            assert(hex_bytes(s@)[i as int / 2] == hex_byte_at(s@, i as int / 2));
        }
        i += 2;
    }
    Some(res)
}

/// Each byte is written as two digits out of `0123456789abcdef`, the high one first.
pub proof fn law_hex_text_digits(bytes: Seq<u8>, k: int)
    requires
        0 <= k < bytes.len(),
    ensures
        hex_text(bytes).len() == 2 * bytes.len(),
        hex_text(bytes)[2 * k] == "0123456789abcdef"@[bytes[k] as int / 16],
        hex_text(bytes)[2 * k + 1] == "0123456789abcdef"@[bytes[k] as int % 16],
{
    reveal_strlit("0123456789abcdef");
    assert(hex_text(bytes)[2 * k] == hex_text_at(bytes, 2 * k));
    assert(hex_text(bytes)[2 * k + 1] == hex_text_at(bytes, 2 * k + 1));
}

/// A text spells bytes if and only if it has an even number of characters, each of them a
/// hexadecimal digit of either case.
pub proof fn law_hex_digits_only(text: Seq<char>)
    ensures
        is_hex(text) <==> text.len() % 2 == 0 && forall|k: int|
            0 <= k < text.len() ==> "0123456789abcdefABCDEF"@.contains(#[trigger] text[k]),
{
    reveal_strlit("0123456789abcdefABCDEF");
    let digits = "0123456789abcdefABCDEF"@;
    assert forall|c: char| #[trigger] digits.contains(c) == (hex_value(c) is Some) by {
        if hex_value(c) is Some {
            let at = if c <= '9' {
                c as int - 48
            } else if c >= 'a' {
                c as int - 87
            } else {
                c as int - 49
            };
            assert(digits[at] == c);
        }
    }
}

/// Each byte is read from two digits, the high one first; a digit counts the same in either case.
pub proof fn law_hex_bytes_digits(text: Seq<char>, k: int, high: int, low: int)
    requires
        0 <= k < text.len() / 2,
        0 <= high < 16,
        0 <= low < 16,
        text[2 * k] == "0123456789abcdef"@[high] || text[2 * k] == "0123456789ABCDEF"@[high],
        text[2 * k + 1] == "0123456789abcdef"@[low] || text[2 * k + 1] == "0123456789ABCDEF"@[low],
    ensures
        hex_bytes(text).len() == text.len() / 2,
        hex_bytes(text)[k] == 16 * high + low,
{
    reveal_strlit("0123456789abcdef");
    reveal_strlit("0123456789ABCDEF");
    assert(hex_value(text[2 * k]) == Some(high));
    assert(hex_value(text[2 * k + 1]) == Some(low));
    assert(hex_bytes(text)[k] == hex_byte_at(text, k));
}

} // verus!
