//! Decimal rendering of the numeric frame fields as canonical strings,
//! and the small string-building helpers the rest of the crate uses.

use vstd::prelude::*;

verus! {

/// The character for one decimal digit.
pub open spec fn digit_char(d: int) -> char {
    if d == 0 {
        '0'
    } else if d == 1 {
        '1'
    } else if d == 2 {
        '2'
    } else if d == 3 {
        '3'
    } else if d == 4 {
        '4'
    } else if d == 5 {
        '5'
    } else if d == 6 {
        '6'
    } else if d == 7 {
        '7'
    } else if d == 8 {
        '8'
    } else {
        '9'
    }
}

/// The canonical decimal rendering of a number: no sign, no leading zeroes
/// (a lone `'0'` for zero).
pub open spec fn dec_digits(n: nat) -> Seq<char>
    decreases n,
{
    if n < 10 {
        seq![digit_char(n as int)]
    } else {
        dec_digits(n / 10).push(digit_char((n % 10) as int))
    }
}

fn digit_of(d: u8) -> (c: char)
    requires
        d < 10,
    ensures
        c == digit_char(d as int),
{
    if d == 0 {
        '0'
    } else if d == 1 {
        '1'
    } else if d == 2 {
        '2'
    } else if d == 3 {
        '3'
    } else if d == 4 {
        '4'
    } else if d == 5 {
        '5'
    } else if d == 6 {
        '6'
    } else if d == 7 {
        '7'
    } else if d == 8 {
        '8'
    } else {
        '9'
    }
}

/// A decimal rendering is at least one character, and at least two once the
/// number has two digits.
pub proof fn lemma_dec_len(n: nat)
    ensures
        dec_digits(n).len() >= 1,
        n >= 10 ==> dec_digits(n).len() >= 2,
    decreases n,
{
    if n >= 10 {
        lemma_dec_len(n / 10);
    }
}

/// Distinct numbers have distinct canonical decimal renderings.
pub proof fn lemma_dec_injective(m: nat, n: nat)
    ensures
        dec_digits(m) == dec_digits(n) ==> m == n,
    decreases m + n,
{
    if dec_digits(m) == dec_digits(n) {
        if m < 10 && n < 10 {
            assert(dec_digits(m)[0] == dec_digits(n)[0]);
            assert(digit_char(m as int) == digit_char(n as int));
            assert(m == n);
        } else if m < 10 && n >= 10 {
            lemma_dec_len(n);
            assert(false);
        } else if m >= 10 && n < 10 {
            lemma_dec_len(m);
            assert(false);
        } else {
            assert(dec_digits(m).last() == digit_char((m % 10) as int));
            assert(dec_digits(n).last() == digit_char((n % 10) as int));
            assert(m % 10 == n % 10);
            assert(dec_digits(m).drop_last() =~= dec_digits(m / 10));
            assert(dec_digits(n).drop_last() =~= dec_digits(n / 10));
            lemma_dec_injective(m / 10, n / 10);
            assert(m == (m / 10) * 10 + m % 10) by (nonlinear_arith);
            assert(n == (n / 10) * 10 + n % 10) by (nonlinear_arith);
        }
    }
}

/// Relies on `String::push`: appends exactly the one character.
#[verifier::external_body]
pub fn push_char(s: &mut String, c: char)
    ensures
        final(s)@ == old(s)@.push(c),
{
    s.push(c);
}

/// Relies on `str`-slice appending via `String::push_str`: appends exactly
/// the characters of the slice.
#[verifier::external_body]
pub fn push_str(s: &mut String, t: &str)
    ensures
        final(s)@ == old(s)@ + t@,
{
    s.push_str(t);
}

/// Appends the canonical decimal rendering of `n`.
pub fn push_dec(s: &mut String, n: u64)
    ensures
        final(s)@ == old(s)@ + dec_digits(n as nat),
    decreases n,
{
    if n < 10 {
        push_char(s, digit_of(n as u8));
        assert(old(s)@.push(digit_char(n as int)) =~= old(s)@ + dec_digits(n as nat));
    } else {
        push_dec(s, n / 10);
        push_char(s, digit_of((n % 10) as u8));
        assert(old(s)@ + dec_digits((n / 10) as nat) + seq![digit_char((n % 10) as int)] =~= old(
            s,
        )@ + dec_digits(n as nat));
    }
}

/// The canonical decimal rendering of `n`, on its own.
pub fn dec_string(n: u64) -> (r: String)
    ensures
        r@ == dec_digits(n as nat),
{
    let mut s = String::new();
    push_dec(&mut s, n);
    proof {
        assert(s@ =~= dec_digits(n as nat));
    }
    s
}

} // verus!
