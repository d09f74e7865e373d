//! Small tools for text.

use vstd::prelude::*;

verus! {

/// `String::push` of the standard library: the text grows by `c` at its end.
pub assume_specification[ String::push ](s: &mut String, c: char)
    ensures
        final(s)@ == old(s)@.push(c),
;

/// The characters of a text.
pub fn chars_of(text: &str) -> (res: Vec<char>)
    ensures
        res@ == text@,
{
    let mut res: Vec<char> = Vec::new();
    for c in it: text.chars()
        invariant
            it.seq() == text@,
            res@ =~= text@.take(it.index()),
    {
        res.push(c);
    }
    res
}

/// Two texts, one behind the other.
pub fn join(a: &str, b: &str) -> (res: String)
    ensures
        res@ == a@ + b@,
{
    let mut res = a.to_string();
    res.append(b);
    res
}

/// `word` with a text before it and one behind it.
pub fn surround(before: &str, word: &str, after: &str) -> (res: String)
    ensures
        res@ == before@ + word@ + after@,
{
    let mut res = String::new();
    res.append(before);
    res.append(word);
    res.append(after);
    res
}

/// The decimal digit for `d`.
pub open spec fn digit(d: int) -> char {
    (48 + d) as char
}

/// The decimal digits of `n`, without a leading zero.
pub open spec fn digits(n: nat) -> Seq<char>
    decreases n,
{
    if n < 10 {
        seq![digit(n as int)]
    } else {
        digits(n / 10).push(digit((n % 10) as int))
    }
}

/// `n` in decimal.
pub open spec fn decimal(n: int) -> Seq<char> {
    if n < 0 {
        seq!['-'] + digits((-n) as nat)
    } else {
        digits(n as nat)
    }
}

fn push_digits(out: &mut String, n: u64)
    ensures
        final(out)@ == old(out)@ + digits(n as nat),
    decreases n,
{
    if n >= 10 {
        push_digits(out, n / 10);
    }
    let d: u8 = 48 + (n % 10) as u8;
    out.push(d as char);
}

/// Writes `n` in decimal.
pub fn to_decimal(n: i64) -> (res: String)
    ensures
        res@ == decimal(n as int),
{
    let mut res = String::new();
    if n < 0 {
        res.push('-');
        push_digits(&mut res, (-(n as i128)) as u64);
    } else {
        push_digits(&mut res, n as u64);
    }
    res
}

/// The number that decimal digits spell.
pub open spec fn spelled(text: Seq<char>) -> int
    decreases text.len(),
{
    if text.len() == 0 {
        0
    } else {
        10 * spelled(text.drop_last()) + (text.last() as int - '0' as int)
    }
}

/// A number is written in digits that spell it, with no zero in front.
pub proof fn law_digits_spell(n: nat)
    ensures
        spelled(digits(n)) == n,
        digits(n).len() > 0,
        forall|k: int| 0 <= k < digits(n).len() ==> '0' <= #[trigger] digits(n)[k] <= '9',
        digits(n)[0] == '0' <==> n == 0,
        n == 0 ==> digits(n).len() == 1,
    decreases n,
{
    let all = digits(n);
    if n < 10 {
        assert(all.drop_last() =~= Seq::empty());
        assert(spelled(all.drop_last()) == 0);
    } else {
        law_digits_spell(n / 10);
        assert(all.drop_last() =~= digits(n / 10));
    }
}

/// A negative number is written as its opposite with a `-` in front, and any other in digits.
pub proof fn law_decimal_sign(n: int)
    ensures
        n >= 0 ==> decimal(n) == digits(n as nat),
        n < 0 ==> decimal(n) == seq!['-'] + decimal(-n),
{
}

} // verus!
