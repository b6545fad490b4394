//! Decimal and hexadecimal renderings of integers, as `{}` and `{:02x}` print them.
use vstd::prelude::*;

verus! {

pub open spec fn digit_char(d: nat) -> char {
    if d < 10 {
        (('0' as nat) + d) as char
    } else {
        (('a' as nat) + (d - 10)) as char
    }
}

/// The digits of `n` in base `b` (at least one digit).
pub open spec fn spec_digits(n: nat, b: nat) -> Seq<char>
    decreases n,
{
    if b < 2 || n < b {
        seq![digit_char(n % 16)]
    } else {
        proof {
            lemma_div_smaller(n, b);
        }
        spec_digits(n / b, b).push(digit_char(n % b))
    }
}

/// `{}` of an unsigned integer.
pub open spec fn spec_decimal(n: nat) -> Seq<char> {
    spec_digits(n, 10)
}

/// `{:02x}`: lower-case hexadecimal, padded with zeros to two digits.
pub open spec fn spec_hex_min2(n: nat) -> Seq<char> {
    if n < 16 {
        seq!['0'] + spec_digits(n, 16)
    } else {
        spec_digits(n, 16)
    }
}

pub proof fn lemma_div_smaller(n: nat, b: nat)
    requires
        b >= 2,
        n >= b,
    ensures
        n / b < n,
{
    assert(n / b < n) by (nonlinear_arith)
        requires
            b >= 2,
            n >= b,
    ;
}

fn digit(d: u64) -> (r: char)
    requires
        d < 16,
    ensures
        r == digit_char(d as nat),
{
    if d < 10 {
        let r = ((d as u8) + 48) as char;
        assert(r as nat == ('0' as nat) + d);
        r
    } else {
        let r = ((d as u8) + 87) as char;
        assert(r as nat == ('a' as nat) + (d - 10));
        r
    }
}

fn digits(n: u64, b: u64) -> (r: Vec<char>)
    requires
        2 <= b <= 16,
    ensures
        r@ == spec_digits(n as nat, b as nat),
    decreases n,
{
    if n < b {
        let mut v = Vec::new();
        v.push(digit(n));
        assert(n % 16 == n);
        v
    } else {
        proof {
            lemma_div_smaller(n as nat, b as nat);
        }
        let mut v = digits(n / b, b);
        v.push(digit(n % b));
        v
    }
}

/// `{}` of an unsigned integer.
pub fn decimal(n: u64) -> (r: String)
    ensures
        r@ == spec_decimal(n as nat),
{
    crate::text::chars_to_string(&digits(n, 10))
}

/// `{:02x}` of an unsigned integer.
pub fn hex_min2(n: u64) -> (r: String)
    ensures
        r@ == spec_hex_min2(n as nat),
{
    let d = digits(n, 16);
    if n < 16 {
        let mut v = Vec::new();
        v.push('0');
        crate::text::push_all(&mut v, &d);
        crate::text::chars_to_string(&v)
    } else {
        crate::text::chars_to_string(&d)
    }
}

} // verus!
