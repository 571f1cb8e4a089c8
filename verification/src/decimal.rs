//! Decimal text of integers, as PDF writes numbers, object numbers and dates.
use vstd::prelude::*;

verus! {

/// ASCII digit for a value below ten.
pub open spec fn digit_byte(d: nat) -> u8 {
    (48 + d) as u8
}

/// Decimal digits of `n`, most significant first, without leading zeros ("0" for zero).
pub open spec fn decimal_bytes(n: nat) -> Seq<u8>
    decreases n,
{
    if n < 10 {
        seq![digit_byte(n)]
    } else {
        decimal_bytes(n / 10).push(digit_byte(n % 10))
    }
}

/// The decimal text of `n` as characters.
pub open spec fn decimal_chars(n: nat) -> Seq<char> {
    crate::strbuf::ascii_chars(decimal_bytes(n))
}

/// Decimal text of a signed integer: a minus sign before the digits of its magnitude.
pub open spec fn signed_decimal_bytes(n: int) -> Seq<u8> {
    if n < 0 {
        seq![45u8] + decimal_bytes((-n) as nat)
    } else {
        decimal_bytes(n as nat)
    }
}

/// `n` in decimal, left-padded with zeros to at least `width` digits.
pub open spec fn zero_padded_bytes(n: nat, width: nat) -> Seq<u8> {
    let d = decimal_bytes(n);
    if d.len() < width {
        Seq::new((width - d.len()) as nat, |i: int| 48u8) + d
    } else {
        d
    }
}

pub proof fn lemma_decimal_bytes_are_digits(n: nat)
    ensures
        decimal_bytes(n).len() >= 1,
        forall|i: int| 0 <= i < decimal_bytes(n).len() ==> 48 <= #[trigger] decimal_bytes(n)[i] <= 57,
    decreases n,
{
    if n >= 10 {
        lemma_decimal_bytes_are_digits(n / 10);
    }
}

/// Ten to the power `w`.
pub open spec fn pow10(w: nat) -> nat
    decreases w,
{
    if w == 0 {
        1
    } else {
        10 * pow10((w - 1) as nat)
    }
}

/// A number below `10^w` has at most `w` digits.
pub proof fn lemma_decimal_len_bound(n: nat, w: nat)
    requires
        w >= 1,
        n < pow10(w),
    ensures
        decimal_bytes(n).len() <= w,
    decreases w,
{
    if n >= 10 {
        assert(w >= 2) by {
            if w == 1 {
                assert(pow10(1) == 10 * pow10(0));
            }
        }
        assert(pow10(w) == 10 * pow10((w - 1) as nat));
        assert(n / 10 < pow10((w - 1) as nat));
        lemma_decimal_len_bound(n / 10, (w - 1) as nat);
    }
}

/// A number with at most `width` digits is padded to exactly `width` digits.
pub proof fn lemma_zero_padded_len(n: nat, width: nat)
    requires
        decimal_bytes(n).len() <= width,
    ensures
        zero_padded_bytes(n, width).len() == width,
{
}

/// The number that a sequence of ASCII digits spells, most significant first.
pub open spec fn digits_value(s: Seq<u8>) -> int
    decreases s.len(),
{
    if s.len() == 0 {
        0
    } else {
        10 * digits_value(s.drop_last()) + (s.last() - 48)
    }
}

/// Decimal text reads back: the digits of `n` spell `n`, and only zero starts with `0`.
pub proof fn lemma_decimal_bytes_value(n: nat)
    ensures
        digits_value(decimal_bytes(n)) == n,
        decimal_bytes(n)[0] == 48u8 <==> n == 0,
    decreases n,
{
    let d = decimal_bytes(n);
    if n >= 10 {
        lemma_decimal_bytes_value(n / 10);
        assert(d.drop_last() == decimal_bytes(n / 10));
        lemma_decimal_bytes_are_digits(n / 10);
        assert(d[0] == decimal_bytes(n / 10)[0]);
        assert(d.last() == digit_byte(n % 10));
        assert(digit_byte(n % 10) == 48 + n % 10);
        assert(n == 10 * (n / 10) + n % 10);
        assert(digits_value(d) == 10 * digits_value(d.drop_last()) + (d.last() - 48));
    } else {
        assert(d.drop_last() =~= Seq::<u8>::empty());
        assert(digits_value(d.drop_last()) == 0);
        assert(d.last() == 48 + n);
        assert(digits_value(d) == 10 * digits_value(d.drop_last()) + (d.last() - 48));
    }
}

/// Leading zeros do not change the number that digits spell.
proof fn lemma_digits_value_leading_zeros(k: nat, d: Seq<u8>)
    ensures
        digits_value(Seq::new(k, |i: int| 48u8) + d) == digits_value(d),
    decreases d.len() + k,
{
    let z = Seq::new(k, |i: int| 48u8);
    if d.len() > 0 {
        assert((z + d).drop_last() =~= z + d.drop_last());
        lemma_digits_value_leading_zeros(k, d.drop_last());
    } else if k > 0 {
        assert((z + d).drop_last() =~= Seq::new((k - 1) as nat, |i: int| 48u8) + d);
        lemma_digits_value_leading_zeros((k - 1) as nat, d);
    } else {
        assert(z + d =~= d);
    }
}

/// Zero-padded decimal text reads back: whatever the width, the digits spell `n`.
pub proof fn lemma_zero_padded_value(n: nat, width: nat)
    ensures
        digits_value(zero_padded_bytes(n, width)) == n,
{
    lemma_decimal_bytes_value(n);
    let d = decimal_bytes(n);
    if d.len() < width {
        lemma_digits_value_leading_zeros((width - d.len()) as nat, d);
    }
}

/// Appends the decimal digits of `n`.
pub fn push_decimal(out: &mut Vec<u8>, n: u64)
    ensures
        final(out)@ == old(out)@ + decimal_bytes(n as nat),
    decreases n,
{
    if n < 10 {
        out.push(48u8 + n as u8);
        assert(final(out)@ =~= old(out)@ + decimal_bytes(n as nat));
    } else {
        push_decimal(out, n / 10);
        let d = (n % 10) as u8;
        out.push(48u8 + d);
        assert(final(out)@ =~= old(out)@ + decimal_bytes(n as nat));
    }
}

/// Appends the decimal digits of a signed integer, with a leading '-' when negative.
pub fn push_signed_decimal(out: &mut Vec<u8>, n: i64)
    ensures
        final(out)@ == old(out)@ + signed_decimal_bytes(n as int),
{
    if n < 0 {
        out.push(45u8);
        let mag: u64 = if n == i64::MIN {
            9223372036854775808u64
        } else {
            (-n) as u64
        };
        push_decimal(out, mag);
        assert(final(out)@ =~= old(out)@ + signed_decimal_bytes(n as int));
    } else {
        push_decimal(out, n as u64);
    }
}

/// Appends `n` in decimal, left-padded with zeros to `width` digits.
pub fn push_zero_padded(out: &mut Vec<u8>, n: u64, width: usize)
    ensures
        final(out)@ == old(out)@ + zero_padded_bytes(n as nat, width as nat),
{
    let mut digits: Vec<u8> = Vec::new();
    push_decimal(&mut digits, n);
    assert(digits@ =~= decimal_bytes(n as nat));
    let ghost start = out@;
    if digits.len() < width {
        let pad = width - digits.len();
        let mut i: usize = 0;
        while i < pad
            invariant
                i <= pad,
                out@ == start + Seq::new(i as nat, |k: int| 48u8),
            decreases pad - i,
        {
            out.push(48u8);
            i = i + 1;
            assert(out@ =~= start + Seq::new(i as nat, |k: int| 48u8));
        }
    }
    let ghost mid = out@;
    let mut i: usize = 0;
    while i < digits.len()
        invariant
            i <= digits@.len(),
            out@ == mid + digits@.take(i as int),
        decreases digits@.len() - i,
    {
        out.push(digits[i]);
        i = i + 1;
        assert(out@ =~= mid + digits@.take(i as int));
    }
    assert(digits@.take(i as int) =~= digits@);
    assert(final(out)@ =~= old(out)@ + zero_padded_bytes(n as nat, width as nat));
}

/// The decimal text of `n` as a byte vector.
pub fn decimal_vec(n: u64) -> (v: Vec<u8>)
    ensures
        v@ == decimal_bytes(n as nat),
{
    let mut v: Vec<u8> = Vec::new();
    push_decimal(&mut v, n);
    assert(v@ =~= decimal_bytes(n as nat));
    v
}

pub proof fn lemma_zero_padded_are_digits(n: nat, width: nat)
    ensures
        forall|i: int| 0 <= i < zero_padded_bytes(n, width).len() ==> 48 <= #[trigger] zero_padded_bytes(n, width)[i] <= 57,
{
    lemma_decimal_bytes_are_digits(n);
    let d = decimal_bytes(n);
    if d.len() < width {
        let p = Seq::new((width - d.len()) as nat, |i: int| 48u8);
        assert forall|i: int| 0 <= i < zero_padded_bytes(n, width).len() implies 48 <= #[trigger] zero_padded_bytes(n, width)[i] <= 57 by {
            if i < p.len() {
                assert(zero_padded_bytes(n, width)[i] == p[i]);
            } else {
                assert(zero_padded_bytes(n, width)[i] == d[i - p.len()]);
            }
        }
    }
}

/// Appends the decimal text of `n` to a `String`.
pub fn push_decimal_str(s: &mut String, n: u64)
    ensures
        final(s)@ == old(s)@ + decimal_chars(n as nat),
{
    let v = decimal_vec(n);
    proof { lemma_decimal_bytes_are_digits(n as nat); }
    crate::strbuf::push_ascii_bytes(s, v.as_slice());
}

} // verus!
