//! Amounts are fixed-point numbers: integers that count ten-thousandths of a
//! currency unit. This module reads and writes their decimal notation.
//!
//! A decimal is a string of digits, or two strings of digits with a point
//! between them, with at least one digit in all. Digits after the fourth
//! fractional one are dropped, never rounded.

use vstd::prelude::*;

verus! {

/// How many ten-thousandths make one currency unit.
pub const SCALE: u64 = 10_000;

/// The byte that parts the whole of a decimal from its fraction.
pub const POINT: u8 = 46;

/// The byte of the digit zero; the other digits follow it.
pub const ZERO: u8 = 48;

/// Whether the byte is one of the ten digits.
pub open spec fn is_digit(byte: u8) -> bool {
    ZERO <= byte <= ZERO + 9
}

/// Whether the text holds digits only.
pub open spec fn all_digits(text: Seq<u8>) -> bool {
    forall|i: int| 0 <= i < text.len() ==> is_digit(#[trigger] text[i])
}

/// The number that a string of digits denotes; the empty string denotes 0.
pub open spec fn number(digits: Seq<u8>) -> nat
    decreases digits.len(),
{
    if digits.len() == 0 {
        0
    } else {
        number(digits.drop_last()) * 10 + (digits.last() - ZERO) as nat
    }
}

/// Where the whole part of a decimal ends: at the first point, or at the end
/// of a text without one.
pub open spec fn point_at(text: Seq<u8>) -> int
    decreases text.len(),
{
    if text.len() == 0 || text.first() == POINT {
        0
    } else {
        1 + point_at(text.drop_first())
    }
}

/// The text before the first point.
pub open spec fn whole_part(text: Seq<u8>) -> Seq<u8> {
    text.take(point_at(text))
}

/// The text after the first point; empty where there is no point.
pub open spec fn fraction_part(text: Seq<u8>) -> Seq<u8> {
    if point_at(text) < text.len() {
        text.skip(point_at(text) + 1)
    } else {
        Seq::empty()
    }
}

/// The value of the digit at position `k`, or 0 past the end.
pub open spec fn digit_or_zero(digits: Seq<u8>, k: int) -> nat {
    if 0 <= k < digits.len() {
        (digits[k] - ZERO) as nat
    } else {
        0
    }
}

/// The ten-thousandths that the digits of a fraction stand for. Only the
/// first four digits count.
pub open spec fn fraction_value(fraction: Seq<u8>) -> nat {
    1000 * digit_or_zero(fraction, 0) + 100 * digit_or_zero(fraction, 1) + 10 * digit_or_zero(
        fraction,
        2,
    ) + digit_or_zero(fraction, 3)
}

/// The ten-thousandths that a decimal denotes, or `None` where the text is
/// no decimal.
pub open spec fn decimal_value(text: Seq<u8>) -> Option<nat> {
    let whole = whole_part(text);
    let fraction = fraction_part(text);
    if all_digits(whole) && all_digits(fraction) && whole.len() + fraction.len() > 0 {
        Some(number(whole) * SCALE as nat + fraction_value(fraction))
    } else {
        None
    }
}

/// The amount that a text denotes: the value of a decimal that fits in 64
/// bits.
pub open spec fn amount_of(text: Seq<u8>) -> Option<u64> {
    match decimal_value(text) {
        Some(value) => if value <= u64::MAX {
            Some(value as u64)
        } else {
            None
        },
        None => None,
    }
}

/// The digits of a number, without leading zeros.
pub open spec fn digits_of(n: nat) -> Seq<u8>
    decreases n,
{
    if n < 10 {
        seq![(ZERO + n) as u8]
    } else {
        digits_of(n / 10).push((ZERO + n % 10) as u8)
    }
}

/// The decimal of a count of ten-thousandths: the whole part, a point, and
/// four fractional digits.
pub open spec fn decimal_text(units: nat) -> Seq<u8> {
    let fraction: nat = units % SCALE as nat;
    digits_of(units / SCALE as nat) + seq![
        POINT,
        (ZERO + fraction / 1000) as u8,
        (ZERO + fraction / 100 % 10) as u8,
        (ZERO + fraction / 10 % 10) as u8,
        (ZERO + fraction % 10) as u8,
    ]
}

/// A number that is too large for an amount stands for all of them.
spec fn capped(n: nat) -> nat {
    if n <= u64::MAX {
        n
    } else {
        u64::MAX as nat + 1
    }
}

/// The first point, or the end of a text without one, is where
/// [`point_at`] says.
proof fn lemma_point_at(text: Seq<u8>, at: int)
    requires
        0 <= at <= text.len(),
        forall|j: int| 0 <= j < at ==> text[j] != POINT,
        at == text.len() || text[at] == POINT,
    ensures
        point_at(text) == at,
    decreases at,
{
    if at > 0 {
        lemma_point_at(text.drop_first(), at - 1);
    }
}

/// [`point_at`] gives the first point, or the end of a text without one.
proof fn lemma_point_is_first(text: Seq<u8>)
    ensures
        0 <= point_at(text) <= text.len(),
        forall|j: int| 0 <= j < point_at(text) ==> text[j] != POINT,
        point_at(text) == text.len() || text[point_at(text)] == POINT,
    decreases text.len(),
{
    if !(text.len() == 0 || text.first() == POINT) {
        let rest = text.drop_first();
        lemma_point_is_first(rest);
        assert forall|j: int| 0 <= j < point_at(text) implies text[j] != POINT by {
            if j > 0 {
                assert(text[j] == rest[j - 1]);
            }
        }
        assert(point_at(rest) < rest.len() ==> rest[point_at(rest)] == text[point_at(text)]);
    }
}

/// The digits of a number denote that number.
proof fn lemma_digits_of(n: nat)
    ensures
        digits_of(n).len() > 0,
        all_digits(digits_of(n)),
        number(digits_of(n)) == n,
    decreases n,
{
    let digits = digits_of(n);
    if n < 10 {
        assert(digits.drop_last() =~= Seq::<u8>::empty());
        assert(number(digits.drop_last()) == 0);
        assert(digits.last() == ZERO + n);
    } else {
        lemma_digits_of(n / 10);
        assert(digits.drop_last() =~= digits_of(n / 10));
        assert(digits.last() == ZERO + n % 10);
    }
}

/// The four digits of a number below ten thousand denote that number.
proof fn lemma_four_digits(fraction: nat)
    requires
        fraction < 10_000,
    ensures
        fraction / 1000 <= 9,
        fraction / 100 % 10 <= 9,
        fraction / 10 % 10 <= 9,
        fraction % 10 <= 9,
        1000 * (fraction / 1000) + 100 * (fraction / 100 % 10) + 10 * (fraction / 10 % 10)
            + fraction % 10 == fraction,
{
    let f: u16 = fraction as u16;
    assert(f < 10_000 ==> f / 1000 <= 9 && f / 100 % 10 <= 9 && f / 10 % 10 <= 9 && f % 10 <= 9
        && 1000 * (f / 1000) + 100 * (f / 100 % 10) + 10 * (f / 10 % 10) + f % 10 == f)
        by (bit_vector);
}

/// Reading what [`format_amount`] writes gives the number back, and the
/// amount back where the number is one.
pub proof fn lemma_round_trip(units: nat)
    ensures
        decimal_value(decimal_text(units)) == Some(units),
        units <= u64::MAX ==> amount_of(decimal_text(units)) == Some(units as u64),
{
    let scale: nat = SCALE as nat;
    let whole = digits_of(units / scale);
    let fraction: nat = units % scale;
    let digits = seq![
        (ZERO + fraction / 1000) as u8,
        (ZERO + fraction / 100 % 10) as u8,
        (ZERO + fraction / 10 % 10) as u8,
        (ZERO + fraction % 10) as u8,
    ];
    let text = decimal_text(units);
    lemma_digits_of(units / scale);
    lemma_four_digits(fraction);
    assert(point_at(text) == whole.len()) by {
        lemma_point_at(text, whole.len() as int);
    }
    assert(whole_part(text) =~= whole);
    assert(fraction_part(text) =~= digits);
    assert(fraction_value(digits) == fraction);
    assert(units == (units / scale) * scale + fraction);
}

/// Digits after the fourth fractional digit are dropped, not rounded: one
/// more digit at the end of a decimal that has four of them changes nothing.
pub proof fn lemma_extra_digits_are_dropped(text: Seq<u8>, digit: u8)
    requires
        decimal_value(text) is Some,
        fraction_part(text).len() >= 4,
        is_digit(digit),
    ensures
        decimal_value(text.push(digit)) == decimal_value(text),
{
    let longer = text.push(digit);
    lemma_point_is_first(text);
    lemma_point_at(longer, point_at(text));
    assert(whole_part(longer) =~= whole_part(text));
    assert(fraction_part(longer) =~= fraction_part(text).push(digit));
}

/// Where the whole part of the text ends.
fn find_point(text: &[u8]) -> (at: usize)
    ensures
        at == point_at(text@),
        at <= text@.len(),
{
    let mut i: usize = 0;
    while i < text.len() && text[i] != POINT
        invariant
            i <= text@.len(),
            forall|j: int| 0 <= j < i ==> text@[j] != POINT,
        decreases text@.len() - i,
    {
        i += 1;
    }
    proof {
        lemma_point_at(text@, i as int);
    }
    i
}

/// The number that `text[from..to]` denotes, capped just above the largest
/// amount, or `None` where a byte in that range is no digit.
fn read_digits(text: &[u8], from: usize, to: usize) -> (r: Option<u128>)
    requires
        from <= to <= text@.len(),
    ensures
        r is Some <==> all_digits(text@.subrange(from as int, to as int)),
        r matches Some(value) ==> value == capped(number(text@.subrange(from as int, to as int))),
{
    let mut value: u128 = 0;
    let mut i: usize = from;
    while i < to
        invariant
            from <= i <= to <= text@.len(),
            all_digits(text@.subrange(from as int, i as int)),
            value == capped(number(text@.subrange(from as int, i as int))),
        decreases to - i,
    {
        let byte: u8 = text[i];
        if byte < ZERO || byte > ZERO + 9 {
            proof {
                assert(text@.subrange(from as int, to as int)[i - from] == byte);
            }
            return None;
        }
        proof {
            let read = text@.subrange(from as int, i + 1);
            assert(read.drop_last() == text@.subrange(from as int, i as int));
            assert(read.last() == byte);
        }
        value = value * 10 + (byte - ZERO) as u128;
        if value > u64::MAX as u128 {
            value = u64::MAX as u128 + 1;
        }
        i += 1;
    }
    Some(value)
}

/// The value of the fractional digit at position `k`, or 0 past the end.
fn digit_at(text: &[u8], from: usize, k: usize) -> (digit: u128)
    requires
        from <= text@.len(),
        k < 4,
        all_digits(text@.skip(from as int)),
    ensures
        digit == digit_or_zero(text@.skip(from as int), k as int),
        digit <= 9,
{
    if k < text.len() - from {
        proof {
            assert(text@.skip(from as int)[k as int] == text@[from + k]);
        }
        (text[from + k] - ZERO) as u128
    } else {
        0
    }
}

/// Reads a decimal as an amount in ten-thousandths. A text that is no
/// decimal, or whose value does not fit in 64 bits, gives `None`.
pub fn parse_amount(text: &[u8]) -> (amount: Option<u64>)
    ensures
        amount == amount_of(text@),
{
    let len: usize = text.len();
    let point: usize = find_point(text);
    let after: usize = if point < len {
        point + 1
    } else {
        len
    };
    proof {
        assert(whole_part(text@) == text@.subrange(0, point as int));
        assert(fraction_part(text@) == text@.subrange(after as int, len as int));
        assert(text@.skip(after as int) == text@.subrange(after as int, len as int));
    }
    let whole: u128 = match read_digits(text, 0, point) {
        Some(whole) => whole,
        None => {
            return None;
        },
    };
    if read_digits(text, after, len).is_none() {
        return None;
    }
    if point == 0 && after == len {
        return None;
    }
    let fraction: u128 = 1000 * digit_at(text, after, 0) + 100 * digit_at(text, after, 1) + 10
        * digit_at(text, after, 2) + digit_at(text, after, 3);
    assert(whole * SCALE <= (u64::MAX + 1) * 10_000) by (nonlinear_arith)
        requires
            whole <= u64::MAX + 1,
            SCALE == 10_000,
    ;
    let value: u128 = whole * SCALE as u128 + fraction;
    if value > u64::MAX as u128 {
        None
    } else {
        Some(value as u64)
    }
}

/// Appends the digits of `n`.
fn push_digits(text: &mut Vec<u8>, n: u128)
    ensures
        final(text)@ == old(text)@ + digits_of(n as nat),
    decreases n,
{
    if n >= 10 {
        push_digits(text, n / 10);
    }
    text.push(ZERO + (n % 10) as u8);
}

/// Writes a count of ten-thousandths as a decimal with four fractional
/// digits.
pub fn format_amount(units: u128) -> (text: Vec<u8>)
    ensures
        text@ == decimal_text(units as nat),
{
    let mut text: Vec<u8> = Vec::new();
    let fraction: u128 = units % SCALE as u128;
    push_digits(&mut text, units / SCALE as u128);
    text.push(POINT);
    text.push(ZERO + (fraction / 1000) as u8);
    text.push(ZERO + (fraction / 100 % 10) as u8);
    text.push(ZERO + (fraction / 10 % 10) as u8);
    text.push(ZERO + (fraction % 10) as u8);
    text
}

} // verus!
