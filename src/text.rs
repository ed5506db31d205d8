//! Decimal and fixed-width hex rendering of integers.

use vstd::prelude::*;
use crate::abi::lower_hex_digit;

verus! {

/// Relies on `String::push`: the character is added at the end.
#[verifier::external_body]
pub(crate) fn push_char(s: &mut String, c: char)
    ensures
        final(s)@ == old(s)@.push(c),
{
    s.push(c)
}

/// Decimal digits of `n`, most significant first, with no leading zeros.
pub open spec fn decimal_digits(n: nat) -> Seq<char>
    decreases n,
{
    if n < 10 {
        seq![lower_hex_digit(n as int)]
    } else {
        decimal_digits(n / 10).push(lower_hex_digit((n % 10) as int))
    }
}

/// The last `k` hex digits of `v`, most significant first, zero-padded.
pub open spec fn hex_digits(v: nat, k: nat) -> Seq<char>
    decreases k,
{
    if k == 0 {
        Seq::empty()
    } else {
        hex_digits(v / 16, (k - 1) as nat).push(lower_hex_digit((v % 16) as int))
    }
}

/// `0x` and the 64 lower-case hex digits of a 32-byte big-endian word holding `v`.
pub open spec fn word_hex(v: u128) -> Seq<char> {
    seq!['0', 'x'] + hex_digits(v as nat, 64)
}

fn digit_char(d: u64) -> (c: char)
    requires
        d < 16,
    ensures
        c == lower_hex_digit(d as int),
{
    if d < 10 {
        ((48 + d) as u8) as char
    } else {
        ((87 + d) as u8) as char
    }
}

/// Appends the decimal digits of `n`.
pub fn append_decimal(s: &mut String, n: u64)
    ensures
        final(s)@ == old(s)@ + decimal_digits(n as nat),
    decreases n,
{
    let ghost s0 = s@;
    if n >= 10 {
        append_decimal(s, n / 10);
    }
    push_char(s, digit_char(n % 10));
    proof {
        if n >= 10 {
            assert(s@ =~= s0 + decimal_digits(n as nat));
        } else {
            assert(s@ =~= s0 + decimal_digits(n as nat));
        }
    }
}

fn append_hex_digits(s: &mut String, v: u128, k: usize)
    ensures
        final(s)@ == old(s)@ + hex_digits(v as nat, k as nat),
    decreases k,
{
    let ghost s0 = s@;
    if k == 0 {
        proof {
            assert(s@ =~= s0 + hex_digits(v as nat, 0));
        }
        return;
    }
    append_hex_digits(s, v / 16, k - 1);
    push_char(s, digit_char((v % 16) as u64));
    proof {
        assert(s@ =~= s0 + hex_digits(v as nat, k as nat));
    }
}

proof fn lemma_hex_digits_len(v: nat, k: nat)
    ensures
        hex_digits(v, k).len() == k,
    decreases k,
{
    if k > 0 {
        lemma_hex_digits_len(v / 16, (k - 1) as nat);
    }
}

/// An amount as a 32-byte zero-padded big-endian word in hex: `0x` and 64
/// lower-case digits, 66 characters in all.
pub fn word_hex_string(v: u128) -> (r: String)
    ensures
        r@ == word_hex(v),
        r@.len() == 66,
{
    let mut s = String::new();
    push_char(&mut s, '0');
    push_char(&mut s, 'x');
    append_hex_digits(&mut s, v, 64);
    proof {
        lemma_hex_digits_len(v as nat, 64);
        assert(s@ =~= word_hex(v));
    }
    s
}

} // verus!
