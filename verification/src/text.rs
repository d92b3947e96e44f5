//! Decimal text: how identifiers, days and probabilities are written in
//! cache keys, cache entries and messages, and how they are read back.

use vstd::prelude::*;
use vstd::string::*;
use crate::types::Date;

verus! {

/// The character that writes the decimal digit `d`.
pub open spec fn digit_char(d: int) -> char {
    if d == 0 {
        '0'
    } else if d == 1 {
        '1'
    } else if d == 2 {
        '2'
    } else if d == 3 {
        '3'
    } else if d == 4 {
        '4'
    } else if d == 5 {
        '5'
    } else if d == 6 {
        '6'
    } else if d == 7 {
        '7'
    } else if d == 8 {
        '8'
    } else {
        '9'
    }
}

/// Whether `c` is one of the ten decimal digits.
pub open spec fn is_digit(c: char) -> bool {
    '0' <= c <= '9'
}

/// The number that the digit `c` writes.
pub open spec fn digit_value(c: char) -> int {
    c as int - '0' as int
}

/// A natural number in decimal, without sign and without leading zeros.
pub open spec fn nat_text(n: nat) -> Seq<char>
    decreases n,
{
    if n < 10 {
        seq![digit_char(n as int)]
    } else {
        nat_text(n / 10).push(digit_char((n % 10) as int))
    }
}

/// An integer in decimal: a minus sign for a negative one, then its magnitude.
pub open spec fn int_text(i: int) -> Seq<char> {
    if i < 0 {
        seq!['-'] + nat_text((-i) as nat)
    } else {
        nat_text(i as nat)
    }
}

/// `n` written with exactly `width` digits, zeros in front; the digits of `n`
/// beyond that width are left out.
pub open spec fn padded_text(n: nat, width: nat) -> Seq<char>
    decreases width,
{
    if width == 0 {
        Seq::<char>::empty()
    } else {
        padded_text(n / 10, (width - 1) as nat).push(digit_char((n % 10) as int))
    }
}

/// The text of one decimal digit.
fn digit_str(d: u128) -> (r: &'static str)
    requires
        d < 10,
    ensures
        r@ == seq![digit_char(d as int)],
{
    proof {
        reveal_strlit("0");
        reveal_strlit("1");
        reveal_strlit("2");
        reveal_strlit("3");
        reveal_strlit("4");
        reveal_strlit("5");
        reveal_strlit("6");
        reveal_strlit("7");
        reveal_strlit("8");
        reveal_strlit("9");
    }
    let r = if d == 0 {
        "0"
    } else if d == 1 {
        "1"
    } else if d == 2 {
        "2"
    } else if d == 3 {
        "3"
    } else if d == 4 {
        "4"
    } else if d == 5 {
        "5"
    } else if d == 6 {
        "6"
    } else if d == 7 {
        "7"
    } else if d == 8 {
        "8"
    } else {
        "9"
    };
    assert(r@ =~= seq![digit_char(d as int)]);
    r
}

/// Appends the decimal form of `n` to `out`.
pub fn push_nat(out: &mut String, n: u128)
    ensures
        final(out)@ == old(out)@ + nat_text(n as nat),
    decreases n,
{
    if n < 10 {
        out.append(digit_str(n));
    } else {
        push_nat(out, n / 10);
        out.append(digit_str(n % 10));
        assert(final(out)@ =~= old(out)@ + nat_text(n as nat));
    }
}

/// Appends `n` in exactly `width` digits to `out`.
pub fn push_padded(out: &mut String, n: u128, width: u32)
    ensures
        final(out)@ == old(out)@ + padded_text(n as nat, width as nat),
    decreases width,
{
    if width == 0 {
        assert(out@ =~= old(out)@ + padded_text(n as nat, 0));
    } else {
        push_padded(out, n / 10, width - 1);
        out.append(digit_str(n % 10));
        assert(final(out)@ =~= old(out)@ + padded_text(n as nat, width as nat));
    }
}

/// Appends the decimal form of `i` to `out`.
pub fn push_int(out: &mut String, i: i32)
    ensures
        final(out)@ == old(out)@ + int_text(i as int),
{
    if i < 0 {
        proof {
            reveal_strlit("-");
        }
        out.append("-");
        let magnitude: u128 = (-(i as i64)) as u128;
        push_nat(out, magnitude);
        assert(final(out)@ =~= old(out)@ + int_text(i as int));
    } else {
        push_nat(out, i as u128);
    }
}

/// The decimal form of `i`.
pub fn int_string(i: i32) -> (r: String)
    ensures
        r@ == int_text(i as int),
{
    let mut out = String::new();
    push_int(&mut out, i);
    assert(out@ =~= int_text(i as int));
    out
}

/// The digits after the decimal point of a fraction of `width` places: `f`
/// in `width` digits, without the zeros at its end. Nothing for `f == 0`.
pub open spec fn fraction_text(f: nat, width: nat) -> Seq<char>
    decreases width,
{
    if width == 0 {
        Seq::<char>::empty()
    } else if f % 10 == 0 {
        fraction_text(f / 10, (width - 1) as nat)
    } else {
        padded_text(f, width)
    }
}

/// A count of millionths as a decimal number: `500000` is `0.5`, `1000000`
/// is `1`, and `1100000` is `1.1`.
pub open spec fn probability_text(m: nat) -> Seq<char> {
    if m % 1_000_000 == 0 {
        nat_text(m / 1_000_000)
    } else {
        nat_text(m / 1_000_000) + seq!['.'] + fraction_text(m % 1_000_000, 6)
    }
}

/// A day as `yyyy-mm-dd`.
pub open spec fn date_text(d: Date) -> Seq<char> {
    padded_text(d.year as nat, 4) + seq!['-'] + padded_text(d.month as nat, 2) + seq!['-']
        + padded_text(d.day as nat, 2)
}

/// The cache key of the campaigns that a user has drawn from on one day.
pub open spec fn enrolment_key_text(user_id: int, day: Date) -> Seq<char> {
    "user-"@ + int_text(user_id) + ":enrolled-campaigns:"@ + date_text(day)
}

/// The cache key of a campaign's probability distribution.
pub open spec fn distribution_key_text(campaign_id: int) -> Seq<char> {
    "campaign-"@ + int_text(campaign_id) + ":prob-dist"@
}

/// One entry of a cached distribution: a coupon type and its probability.
pub open spec fn entry_text(type_id: int, millionths: nat) -> Seq<char> {
    int_text(type_id) + seq![':'] + probability_text(millionths)
}

/// Appends the digits of a fraction of `width` places to `out`.
fn push_fraction(out: &mut String, f: u128, width: u32)
    ensures
        final(out)@ == old(out)@ + fraction_text(f as nat, width as nat),
    decreases width,
{
    if width == 0 {
        assert(out@ =~= old(out)@ + fraction_text(f as nat, 0));
    } else if f % 10 == 0 {
        push_fraction(out, f / 10, width - 1);
    } else {
        push_padded(out, f, width);
    }
}

/// Appends a count of millionths as a decimal number to `out`.
pub fn push_probability(out: &mut String, millionths: u128)
    ensures
        final(out)@ == old(out)@ + probability_text(millionths as nat),
{
    push_nat(out, millionths / 1_000_000);
    if millionths % 1_000_000 != 0 {
        proof {
            reveal_strlit(".");
        }
        out.append(".");
        push_fraction(out, millionths % 1_000_000, 6);
        assert(final(out)@ =~= old(out)@ + probability_text(millionths as nat));
    }
}

/// A count of millionths as a decimal number.
pub fn probability_string(millionths: u128) -> (r: String)
    ensures
        r@ == probability_text(millionths as nat),
{
    let mut out = String::new();
    push_probability(&mut out, millionths);
    assert(out@ =~= probability_text(millionths as nat));
    out
}

/// A day as `yyyy-mm-dd`.
pub fn date_string(day: Date) -> (r: String)
    ensures
        r@ == date_text(day),
{
    proof {
        reveal_strlit("-");
    }
    let mut out = String::new();
    push_padded(&mut out, day.year as u128, 4);
    out.append("-");
    push_padded(&mut out, day.month as u128, 2);
    out.append("-");
    push_padded(&mut out, day.day as u128, 2);
    assert(out@ =~= date_text(day));
    out
}

/// The cache key under which the campaigns that `user_id` drew from on `day`
/// are listed.
pub fn enrolment_key(user_id: i32, day: Date) -> (r: String)
    ensures
        r@ == enrolment_key_text(user_id as int, day),
{
    let mut out = String::from_str("user-");
    push_int(&mut out, user_id);
    out.append(":enrolled-campaigns:");
    let date = date_string(day);
    out.append(date.as_str());
    assert(out@ =~= enrolment_key_text(user_id as int, day));
    out
}

/// The cache key under which the distribution of `campaign_id` is kept.
pub fn distribution_key(campaign_id: i32) -> (r: String)
    ensures
        r@ == distribution_key_text(campaign_id as int),
{
    let mut out = String::from_str("campaign-");
    push_int(&mut out, campaign_id);
    out.append(":prob-dist");
    assert(out@ =~= distribution_key_text(campaign_id as int));
    out
}

/// The cache entry of one coupon type and its probability.
pub fn entry_string(type_id: i32, millionths: u32) -> (r: String)
    ensures
        r@ == entry_text(type_id as int, millionths as nat),
{
    proof {
        reveal_strlit(":");
    }
    let mut out = int_string(type_id);
    out.append(":");
    push_probability(&mut out, millionths as u128);
    assert(out@ =~= entry_text(type_id as int, millionths as nat));
    out
}

} // verus!
