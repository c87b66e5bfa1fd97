//! Rendering of the gain value for the UI: decibels with two decimal
//! places and the unit, from a milli-decibel value, truncating toward
//! zero.

use vstd::prelude::*;

verus! {

use vstd::string::StringExecFns;
use crate::range::div_trunc;

/// The one-character piece for a decimal digit.
pub open spec fn digit_seq(d: int) -> Seq<char> {
    if d == 0 { "0"@ }
    else if d == 1 { "1"@ }
    else if d == 2 { "2"@ }
    else if d == 3 { "3"@ }
    else if d == 4 { "4"@ }
    else if d == 5 { "5"@ }
    else if d == 6 { "6"@ }
    else if d == 7 { "7"@ }
    else if d == 8 { "8"@ }
    else { "9"@ }
}

/// Decimal digits of a non-negative number, most significant first.
pub open spec fn spec_digits(n: int) -> Seq<char>
    decreases n,
{
    if n < 10 {
        digit_seq(n)
    } else {
        spec_digits(n / 10) + digit_seq(n % 10)
    }
}

/// Display text for a milli-decibel value: sign, whole decibels, two
/// decimal places truncated toward zero, and the unit.
pub open spec fn spec_display_mdb(mdb: int) -> Seq<char> {
    let c = div_trunc(mdb, 10);
    let mag = if c >= 0 { c } else { -c };
    let sign: Seq<char> = if mdb < 0 { "-"@ } else { Seq::empty() };
    sign + spec_digits(mag / 100) + "."@ + digit_seq(mag % 100 / 10) + digit_seq(mag % 10)
        + " dB"@
}

/// The literal for one decimal digit.
fn digit_str(d: u64) -> (s: &'static str)
    requires
        d < 10,
    ensures
        s@ == digit_seq(d as int),
{
    if d == 0 { "0" }
    else if d == 1 { "1" }
    else if d == 2 { "2" }
    else if d == 3 { "3" }
    else if d == 4 { "4" }
    else if d == 5 { "5" }
    else if d == 6 { "6" }
    else if d == 7 { "7" }
    else if d == 8 { "8" }
    else { "9" }
}

/// Appends the decimal digits of `n` to `s`.
fn push_digits(s: &mut String, n: u64)
    ensures
        final(s)@ == old(s)@ + spec_digits(n as int),
    decreases n,
{
    if n < 10 {
        s.append(digit_str(n));
    } else {
        proof {
            crate::range::lemma_div_nonneg(n as int, 10);
            vstd::arithmetic::div_mod::lemma_div_decreases(n as int, 10);
            vstd::arithmetic::div_mod::lemma_mod_bound(n as int, 10);
        }
        push_digits(s, n / 10);
        s.append(digit_str(n % 10));
        proof {
            assert(old(s)@ + spec_digits(n as int)
                =~= old(s)@ + spec_digits(n as int / 10) + digit_seq(n as int % 10));
        }
    }
}

/// The gain display text for a milli-decibel value.
pub fn display_mdb(mdb: i64) -> (s: String)
    requires
        -1_000_000_000_000_000 <= mdb <= 1_000_000_000_000_000,
    ensures
        s@ == spec_display_mdb(mdb as int),
{
    let mag_mdb: u64 = if mdb < 0 { (-mdb) as u64 } else { mdb as u64 };
    let c: u64 = mag_mdb / 10;
    proof {
        crate::range::lemma_div_nonneg(mag_mdb as int, 10);
        crate::range::lemma_div_nonneg(c as int, 100);
        vstd::arithmetic::div_mod::lemma_mod_bound(c as int, 100);
        vstd::arithmetic::div_mod::lemma_mod_bound(c as int % 100, 10);
        crate::range::lemma_div_nonneg(c as int % 100, 10);
        vstd::arithmetic::div_mod::lemma_mod_bound(c as int, 10);
        vstd::arithmetic::div_mod::lemma_div_is_ordered(c as int % 100, 99, 10);
        assert(div_trunc(mdb as int, 10) == if mdb >= 0 { c as int } else { -(c as int) });
    }
    let mut s: String = if mdb < 0 {
        String::from_str("-")
    } else {
        String::from_str("")
    };
    proof {
        reveal_strlit("");
        assert(s@ =~= (if (mdb as int) < 0 { "-"@ } else { Seq::<char>::empty() }));
    }
    push_digits(&mut s, c / 100);
    s.append(".");
    s.append(digit_str(c % 100 / 10));
    s.append(digit_str(c % 10));
    s.append(" dB");
    proof {
        let ci = div_trunc(mdb as int, 10);
        let mag = if ci >= 0 { ci } else { -ci };
        assert(mag == c as int);
        assert(mag % 100 / 10 == c as int % 100 / 10);
        assert(s@ =~= spec_display_mdb(mdb as int));
    }
    s
}

} // verus!
