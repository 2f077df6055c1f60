//! Text rendering of numbers, shared by the messages and descriptions that the
//! library produces.

use vstd::prelude::*;
use vstd::string::StringExecFns;

verus! {

/// The character of one decimal digit.
pub open spec fn digit_char(d: int) -> char
    recommends
        0 <= d < 10,
{
    (48 + d) as u8 as char
}

/// The decimal numeral of `n`, without leading zeros.
pub open spec fn decimal(n: nat) -> Seq<char>
    decreases n,
{
    if n < 10 {
        seq![digit_char(n as int)]
    } else {
        decimal(n / 10).push(digit_char((n % 10) as int))
    }
}

/// The decimal numeral of `i`, with a minus sign where `i` is negative.
pub open spec fn signed_decimal(i: int) -> Seq<char> {
    if i < 0 {
        seq!['-'] + decimal((-i) as nat)
    } else {
        decimal(i as nat)
    }
}

/// The character of bit `k` of `b`: `'1'` where it is set, `'0'` where not.
pub open spec fn bit_char(b: u8, k: int) -> char {
    if (b as int / pow2_small(k)) % 2 == 1 {
        '1'
    } else {
        '0'
    }
}

/// Two to the power `k`, for the bit positions of a byte.
pub open spec fn pow2_small(k: int) -> int {
    if k <= 0 {
        1
    } else if k == 1 {
        2
    } else if k == 2 {
        4
    } else if k == 3 {
        8
    } else if k == 4 {
        16
    } else if k == 5 {
        32
    } else if k == 6 {
        64
    } else {
        128
    }
}

/// The eight binary digits of `b`, most significant first.
pub open spec fn binary8(b: u8) -> Seq<char> {
    Seq::new(8, |i: int| bit_char(b, 7 - i))
}

/// `String::push` appends one character to the end of the string.
pub assume_specification[ String::push ](s: &mut String, ch: char)
    ensures
        final(s)@ == old(s)@.push(ch),
;

/// Appends the decimal numeral of `n` to `s`.
pub fn push_decimal(s: &mut String, n: u64)
    ensures
        final(s)@ == old(s)@ + decimal(n as nat),
    decreases n,
{
    if n >= 10 {
        push_decimal(s, n / 10);
    }
    let d: u8 = (n % 10) as u8;
    let c: char = (48u8 + d) as char;
    s.push(c);
    proof {
        let front = decimal((n / 10) as nat);
        if n >= 10 {
            assert((old(s)@ + front).push(c) =~= old(s)@ + front.push(c));
        } else {
            assert(old(s)@.push(c) =~= old(s)@ + seq![c]);
        }
    }
}

/// Appends the decimal numeral of `i`, with its sign, to `s`.
pub fn push_signed_decimal(s: &mut String, i: i32)
    ensures
        final(s)@ == old(s)@ + signed_decimal(i as int),
{
    if i < 0 {
        s.push('-');
        let m: u64 = (-(i as i64)) as u64;
        push_decimal(s, m);
        proof {
            assert(old(s)@.push('-') + decimal(m as nat) =~= old(s)@ + (seq!['-'] + decimal(
                m as nat,
            )));
        }
    } else {
        push_decimal(s, i as u64);
    }
}

/// Appends the eight binary digits of `b` to `s`, most significant first.
pub fn push_binary8(s: &mut String, b: u8)
    ensures
        final(s)@ == old(s)@ + binary8(b),
{
    let mut k: u8 = 0;
    let mut weight: u8 = 128;
    while k < 8
        invariant
            k <= 8,
            weight as int == (if k < 8 { pow2_small(7 - k as int) } else { 0 }),
            s@ == old(s)@ + binary8(b).subrange(0, k as int),
        decreases 8 - k,
    {
        let c: char = if (b / weight) % 2 == 1 { '1' } else { '0' };
        s.push(c);
        proof {
            assert(c == binary8(b)[k as int]);
            assert((old(s)@ + binary8(b).subrange(0, k as int)).push(c) =~= old(s)@ + binary8(
                b,
            ).subrange(0, k as int + 1));
        }
        k = k + 1;
        weight = weight / 2;
    }
    proof {
        assert(binary8(b).subrange(0, 8) =~= binary8(b));
    }
}

} // verus!
