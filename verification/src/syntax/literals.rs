//! The values of integer literals, read the way `i64::from_str_radix` reads
//! them.
use vstd::prelude::*;

verus! {

/// The text without its underscores.
pub open spec fn strip_underscores(s: Seq<char>) -> Seq<char>
    decreases s.len(),
{
    if s.len() == 0 {
        seq![]
    } else if s.last() == '_' {
        strip_underscores(s.drop_last())
    } else {
        strip_underscores(s.drop_last()).push(s.last())
    }
}

/// The value of a digit in bases up to 16; 16 for anything else.
pub open spec fn digit_value(c: char) -> int {
    if '0' <= c && c <= '9' {
        c as int - '0' as int
    } else if 'a' <= c && c <= 'f' {
        c as int - 'a' as int + 10
    } else if 'A' <= c && c <= 'F' {
        c as int - 'A' as int + 10
    } else {
        16
    }
}

/// A non-empty run of digits of the base.
pub open spec fn all_digits(s: Seq<char>, radix: int) -> bool {
    s.len() > 0 && forall|i: int| 0 <= i < s.len() ==> #[trigger] digit_value(s[i]) < radix
}

/// The number the digits stand for in the base.
pub open spec fn digits_value(s: Seq<char>, radix: int) -> int
    decreases s.len(),
{
    if s.len() == 0 {
        0
    } else {
        digits_value(s.drop_last(), radix) * radix + digit_value(s.last())
    }
}

/// What an optional `+` or `-` followed by one or more digits of the base
/// stands for; `None` for any other text.
pub open spec fn signed_digits_value(s: Seq<char>, radix: int) -> Option<int> {
    if s.len() > 0 && (s[0] == '+' || s[0] == '-') {
        if all_digits(s.drop_first(), radix) {
            Some(
                if s[0] == '-' {
                    0 - digits_value(s.drop_first(), radix)
                } else {
                    digits_value(s.drop_first(), radix)
                },
            )
        } else {
            None
        }
    } else if all_digits(s, radix) {
        Some(digits_value(s, radix))
    } else {
        None
    }
}

/// The `i64` that `s` stands for in the base, where it has one.
pub open spec fn spec_parse_i64(s: Seq<char>, radix: int) -> Option<i64> {
    match signed_digits_value(s, radix) {
        Some(v) => if i64::MIN <= v && v <= i64::MAX {
            Some(v as i64)
        } else {
            None
        },
        None => None,
    }
}

/// The `Display` text of the error `i64::from_str_radix` gives for `s`.
pub uninterp spec fn int_error_text(s: Seq<char>, radix: u32) -> Seq<char>;

/// Calls `i64::from_str_radix(s, radix)` and keeps the error's `Display`
/// text. The documentation expects an optional `+` or `-` and then only
/// digits of the base, and gives the number when it fits in `i64`; every
/// other text is an error, whose text is left to the name. Radixes outside
/// `2..=36` panic, and only bases up to 16 are stated.
#[verifier::external_body]
pub(crate) fn parse_i64_radix(s: &str, radix: u32) -> (r: Result<i64, String>)
    requires
        2 <= radix <= 16,
    ensures
        r is Ok <==> spec_parse_i64(s@, radix as int) is Some,
        r matches Ok(v) ==> spec_parse_i64(s@, radix as int) == Some(v),
        r matches Err(e) ==> e@ == int_error_text(s@, radix),
{
    match i64::from_str_radix(s, radix) {
        Ok(v) => Ok(v),
        Err(e) => Err(e.to_string()),
    }
}

/// The characters without their underscores.
pub fn remove_underscores(s: &[char]) -> (r: Vec<char>)
    ensures
        r@ == strip_underscores(s@),
{
    let mut out: Vec<char> = Vec::new();
    let mut i: usize = 0;
    while i < s.len()
        invariant
            i <= s@.len(),
            out@ == strip_underscores(s@.take(i as int)),
        decreases s@.len() - i,
    {
        proof {
            assert(s@.take(i + 1).drop_last() =~= s@.take(i as int));
        }
        if s[i] != '_' {
            out.push(s[i]);
        }
        i = i + 1;
    }
    assert(s@.take(s@.len() as int) =~= s@);
    out
}

} // verus!
