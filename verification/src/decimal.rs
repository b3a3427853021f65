//! Numbers written out in decimal digits.

use vstd::prelude::*;

verus! {

/// The character of a single digit.
pub open spec fn digit_char(d: int) -> char {
    (('0' as u8) + d) as u8 as char
}

/// `n` in decimal digits, without leading zeros.
pub open spec fn decimal(n: nat) -> Seq<char>
    decreases n,
{
    if n < 10 {
        seq![digit_char(n as int)]
    } else {
        decimal(n / 10).push(digit_char((n % 10) as int))
    }
}

/// Tenths of a percent that a confidence in parts per million comes to,
/// rounded to the nearest, halves upwards.
pub open spec fn tenths_of_percent(confidence: u32) -> nat {
    ((confidence + 500) / 1000) as nat
}

/// A confidence in parts per million as a percentage with one decimal place.
pub open spec fn percent_text(confidence: u32) -> Seq<char> {
    decimal(tenths_of_percent(confidence) / 10) + seq!['.'] + seq![
        digit_char((tenths_of_percent(confidence) % 10) as int),
    ]
}

/// Appends `n` in decimal digits.
pub fn push_decimal(out: &mut String, n: u64)
    ensures
        final(out)@ == old(out)@ + decimal(n as nat),
    decreases n,
{
    if n >= 10 {
        push_decimal(out, n / 10);
    }
    let digit: u8 = (n % 10) as u8;
    out.push((48u8 + digit) as char);
    proof {
        let last = digit_char((n % 10) as int);
        if n >= 10 {
            assert(old(out)@ + decimal((n / 10) as nat).push(last) == (old(out)@ + decimal(
                (n / 10) as nat,
            )).push(last));
        } else {
            assert(old(out)@ + seq![last] == old(out)@.push(last));
        }
    }
}

/// Appends a confidence as a percentage with one decimal place.
pub fn push_percent(out: &mut String, confidence: u32)
    ensures
        final(out)@ == old(out)@ + percent_text(confidence),
{
    let tenths: u64 = ((confidence as u64) + 500) / 1000;
    let ghost before = out@;
    push_decimal(out, tenths / 10);
    out.push('.');
    let digit: u8 = (tenths % 10) as u8;
    out.push((48u8 + digit) as char);
    proof {
        let whole = decimal(tenths_of_percent(confidence) / 10);
        let last = digit_char((tenths_of_percent(confidence) % 10) as int);
        assert(out@ == (before + whole).push('.').push(last));
        assert((before + whole).push('.').push(last) == before + (whole + seq!['.'] + seq![last]));
    }
}

} // verus!
