//! Measures of the next element of the remaining input, used to size the
//! span of an error report.
use vstd::prelude::*;
use vstd::utf8::{encode_scalar, encode_utf8};
use crate::text::{
    char_is_alphanumeric, char_is_whitespace, find_seq, is_alphanumeric, is_whitespace,
    lemma_find_seq, starts_with, str_to_chars,
};

verus! {

// ── The length of the next element ──

/// Where an identifier that has `l` characters so far ends: it takes the
/// following letters, digits and underscores.
pub open spec fn ident_end(s: Seq<char>, l: int) -> int
    decreases s.len() - l,
{
    if 0 <= l < s.len() && (char_is_alphanumeric(s[l]) || s[l] == '_') {
        ident_end(s, l + 1)
    } else {
        l
    }
}

/// Where a string literal that has `l` characters so far ends: just after
/// the next `"` that does not follow a backslash, or at the end.
pub open spec fn quote_end(s: Seq<char>, l: int) -> int
    decreases s.len() - l,
{
    if 1 <= l < s.len() {
        if s[l] == '"' && s[l - 1] != '\\' {
            l + 1
        } else {
            quote_end(s, l + 1)
        }
    } else {
        l
    }
}

/// The length of the next element when the scan is at character `i` and
/// has counted `length` characters that are not white space: white space
/// is skipped; an identifier (starting with a letter, digit, `_` or `$`)
/// or a string literal ends the scan; any other character is counted and
/// the scan goes on.
pub open spec fn element_length_from(s: Seq<char>, i: int, length: int) -> int
    decreases s.len() - i,
{
    if i < 0 || i >= s.len() {
        length
    } else if char_is_whitespace(s[i]) {
        element_length_from(s, i + 1, length)
    } else if char_is_alphanumeric(s[i]) || s[i] == '_' || s[i] == '$' {
        ident_end(s, length + 1)
    } else if s[i] == '"' {
        quote_end(s, length + 1)
    } else {
        element_length_from(s, i + 1, length + 1)
    }
}

/// The length, in characters, of the next element of the input.
pub open spec fn element_length(s: Seq<char>) -> int {
    element_length_from(s, 0, 0)
}

proof fn lemma_ident_end_bound(s: Seq<char>, l: int)
    requires
        0 <= l <= s.len(),
    ensures
        l <= ident_end(s, l) <= s.len(),
    decreases s.len() - l,
{
    if 0 <= l < s.len() && (char_is_alphanumeric(s[l]) || s[l] == '_') {
        lemma_ident_end_bound(s, l + 1);
    }
}

proof fn lemma_quote_end_bound(s: Seq<char>, l: int)
    requires
        0 <= l <= s.len(),
    ensures
        l <= quote_end(s, l) <= s.len(),
    decreases s.len() - l,
{
    if 1 <= l < s.len() && !(s[l] == '"' && s[l - 1] != '\\') {
        lemma_quote_end_bound(s, l + 1);
    }
}

fn ident_end_exec(s: &[char], l: usize) -> (r: usize)
    requires
        l <= s@.len(),
    ensures
        r == ident_end(s@, l as int),
    decreases s@.len() - l,
{
    if l < s.len() && (is_alphanumeric(s[l]) || s[l] == '_') {
        ident_end_exec(s, l + 1)
    } else {
        l
    }
}

fn quote_end_exec(s: &[char], l: usize) -> (r: usize)
    requires
        l <= s@.len(),
    ensures
        r == quote_end(s@, l as int),
    decreases s@.len() - l,
{
    if 1 <= l && l < s.len() {
        if s[l] == '"' && s[l - 1] != '\\' {
            l + 1
        } else {
            quote_end_exec(s, l + 1)
        }
    } else {
        l
    }
}

/// The length, in characters, of the next element of the remaining input:
/// leading white space is not counted; an identifier or a string literal is
/// counted whole; other characters count one each until one of those
/// starts.
pub fn get_next_element_length(input: &str) -> (r: usize)
    ensures
        r == element_length(input@),
        r <= input@.len(),
{
    let s = str_to_chars(input);
    let n = s.len();
    let mut i: usize = 0;
    let mut length: usize = 0;
    while i < n
        invariant
            n == s@.len(),
            s@ == input@,
            i <= n,
            length <= i,
            element_length_from(s@, i as int, length as int) == element_length(input@),
        decreases n - i,
    {
        let c = s[i];
        if is_whitespace(c) {
            i = i + 1;
        } else if is_alphanumeric(c) || c == '_' || c == '$' {
            proof {
                lemma_ident_end_bound(s@, length + 1);
            }
            return ident_end_exec(s.as_slice(), length + 1);
        } else if c == '"' {
            proof {
                lemma_quote_end_bound(s@, length + 1);
            }
            return quote_end_exec(s.as_slice(), length + 1);
        } else {
            i = i + 1;
            length = length + 1;
        }
    }
    length
}

// ── Offsets up to a pattern ──

/// The number of bytes of the UTF-8 encoding of `s`.
pub open spec fn byte_len(s: Seq<char>) -> int {
    encode_utf8(s).len() as int
}

proof fn lemma_byte_len_push(a: Seq<char>, c: char)
    ensures
        byte_len(a.push(c)) == byte_len(a) + encode_scalar(c as u32).len(),
    decreases a.len(),
{
    let ac = a.push(c);
    if a.len() == 0 {
        assert(ac.drop_first() =~= Seq::<char>::empty());
        assert(encode_utf8(ac.drop_first()) =~= Seq::<u8>::empty());
        assert(encode_utf8(a) =~= Seq::<u8>::empty());
        assert(ac[0] == c);
    } else {
        lemma_byte_len_push(a.drop_first(), c);
        assert(ac.drop_first() =~= a.drop_first().push(c));
        assert(ac[0] == a[0]);
    }
}

proof fn lemma_byte_len_append(a: Seq<char>, b: Seq<char>)
    ensures
        byte_len(a + b) == byte_len(a) + byte_len(b),
    decreases a.len(),
{
    if a.len() == 0 {
        assert(a + b =~= b);
    } else {
        lemma_byte_len_append(a.drop_first(), b);
        assert((a + b).drop_first() =~= a.drop_first() + b);
    }
}

fn char_width(c: char) -> (r: usize)
    ensures
        r == encode_scalar(c as u32).len(),
        1 <= r <= 4,
{
    let v = c as u32;
    if v <= 0x7f {
        1
    } else if v <= 0x7ff {
        2
    } else if v <= 0xffff {
        3
    } else {
        4
    }
}

/// The byte offset of the character at `k`.
fn byte_offset(s: &[char], k: usize) -> (r: usize)
    requires
        k <= s@.len(),
        byte_len(s@) <= usize::MAX,
    ensures
        r == byte_len(s@.take(k as int)),
{
    let mut acc: usize = 0;
    let mut i: usize = 0;
    proof {
        assert(s@.take(0) =~= Seq::<char>::empty());
        lemma_byte_len_append(s@.take(k as int), s@.skip(k as int));
        assert(s@.take(k as int) + s@.skip(k as int) =~= s@);
    }
    while i < k
        invariant
            i <= k <= s@.len(),
            acc == byte_len(s@.take(i as int)),
            byte_len(s@.take(k as int)) <= usize::MAX,
        decreases k - i,
    {
        proof {
            lemma_byte_len_push(s@.take(i as int), s@[i as int]);
            assert(s@.take(i + 1) =~= s@.take(i as int).push(s@[i as int]));
            lemma_byte_len_append(s@.take(i + 1), s@.take(k as int).skip(i + 1));
            assert(s@.take(i + 1) + s@.take(k as int).skip(i + 1) =~= s@.take(k as int));
        }
        acc = acc + char_width(s[i]);
        i = i + 1;
    }
    acc
}

/// Where `str::find` puts the first match of `p` in `s`, in bytes.
pub open spec fn byte_find(s: Seq<char>, p: Seq<char>) -> Option<int> {
    match find_seq(s, p) {
        Some(i) => Some(byte_len(s.take(i))),
        None => None,
    }
}

/// `find_seq` gives the first position at which the pattern starts.
proof fn lemma_find_seq_first(s: Seq<char>, p: Seq<char>, n: int)
    requires
        0 <= n <= s.len() + 1,
        forall|j: int| 0 <= j < n ==> !starts_with(#[trigger] s.skip(j), p),
    ensures
        n <= s.len() && starts_with(s.skip(n), p) ==> find_seq(s, p) == Some(n),
        n == s.len() + 1 ==> find_seq(s, p) is None,
    decreases s.len(),
{
    assert(s.skip(0) =~= s);
    if n > 0 && s.len() > 0 {
        let t = s.drop_first();
        assert forall|j: int| 0 <= j < n - 1 implies !starts_with(#[trigger] t.skip(j), p) by {
            assert(t.skip(j) =~= s.skip(j + 1));
        }
        if n - 1 <= t.len() {
            assert(t.skip(n - 1) =~= s.skip(n));
        }
        lemma_find_seq_first(t, p, n - 1);
    }
}

/// The inclusive offset: just past the first byte of the first match, or
/// the offset of the last byte.
pub open spec fn until_inclusive(s: Seq<char>, p: Seq<char>) -> int {
    match byte_find(s, p) {
        Some(b) => b + 1,
        None => byte_len(s) - 1,
    }
}

/// The exclusive offset: the first match, or the offset of the last byte.
pub open spec fn until_exclusive(s: Seq<char>, p: Seq<char>) -> int {
    match byte_find(s, p) {
        Some(b) => b,
        None => byte_len(s) - 1,
    }
}

/// Where the pattern occurs in the input, the inclusive offset is one past
/// the exclusive one; where it does not, both are the offset of the input's
/// last byte.
pub proof fn lemma_until_inclusive_exclusive(s: Seq<char>, p: Seq<char>)
    ensures
        (exists|i: int| 0 <= i <= s.len() - p.len() && #[trigger] s.subrange(i, i + p.len()) == p)
            ==> until_inclusive(s, p) == until_exclusive(s, p) + 1,
        !(exists|i: int| 0 <= i <= s.len() - p.len() && #[trigger] s.subrange(i, i + p.len()) == p)
            ==> until_inclusive(s, p) == byte_len(s) - 1 && until_exclusive(s, p) == byte_len(s) - 1,
{
    lemma_find_seq(s, p);
    if exists|i: int| 0 <= i <= s.len() - p.len() && #[trigger] s.subrange(i, i + p.len()) == p {
        let i = choose|i: int| 0 <= i <= s.len() - p.len() && #[trigger] s.subrange(i, i + p.len()) == p;
        lemma_find_seq_occurs(s, p, i);
    } else {
        if let Some(i) = find_seq(s, p) {
            assert(s.subrange(i, i + p.len()) =~= s.skip(i).take(p.len() as int));
        }
    }
}

/// Where the pattern occurs at `i`, `find_seq` finds some match.
proof fn lemma_find_seq_occurs(s: Seq<char>, p: Seq<char>, i: int)
    requires
        0 <= i <= s.len() - p.len(),
        s.subrange(i, i + p.len()) == p,
    ensures
        find_seq(s, p) is Some,
    decreases i,
{
    if i == 0 {
        assert(s.take(p.len() as int) =~= s.subrange(0, p.len() as int));
    } else if !starts_with(s, p) {
        assert(s.drop_first().subrange(i - 1, i - 1 + p.len()) =~= s.subrange(i, i + p.len()));
        lemma_find_seq_occurs(s.drop_first(), p, i - 1);
    }
}

fn find_chars(s: &[char], p: &[char]) -> (r: Option<usize>)
    ensures
        match find_seq(s@, p@) {
            Some(i) => r == Some(i as usize),
            None => r is None,
        },
{
    let mut i: usize = 0;
    while i < s.len()
        invariant
            i <= s@.len(),
            forall|j: int| 0 <= j < i ==> !starts_with(#[trigger] s@.skip(j), p@),
        decreases s@.len() - i,
    {
        if starts_with_at(s, i, p) {
            proof {
                lemma_find_seq_first(s@, p@, i as int);
            }
            return Some(i);
        }
        i = i + 1;
    }
    if starts_with_at(s, i, p) {
        proof {
            lemma_find_seq_first(s@, p@, i as int);
        }
        return Some(i);
    }
    proof {
        lemma_find_seq_first(s@, p@, i + 1);
    }
    None
}

fn starts_with_at(s: &[char], i: usize, p: &[char]) -> (r: bool)
    requires
        i <= s@.len(),
    ensures
        r == starts_with(s@.skip(i as int), p@),
{
    let n = s.len();
    if p.len() > n - i {
        return false;
    }
    let mut k: usize = 0;
    while k < p.len()
        invariant
            n == s@.len(),
            i <= s@.len(),
            p@.len() <= s@.len() - i,
            k <= p@.len(),
            forall|j: int| 0 <= j < k ==> s@[i + j] == p@[j],
        decreases p@.len() - k,
    {
        if s[i + k] != p[k] {
            assert(s@.skip(i as int).take(p@.len() as int)[k as int] != p@[k as int]);
            return false;
        }
        k = k + 1;
    }
    assert(s@.skip(i as int).take(p@.len() as int) =~= p@);
    true
}

/// The byte offset just past the first character of the first match of
/// `pattern` in the input, or, where there is none, the offset of the
/// input's last byte.
pub fn get_next_element_until_inclusive(input: &str, pattern: &str) -> (r: usize)
    requires
        byte_find(input@, pattern@) is Some || input@.len() > 0,
        byte_len(input@) < usize::MAX,
    ensures
        r == until_inclusive(input@, pattern@),
{
    let s = str_to_chars(input);
    let p = str_to_chars(pattern);
    match find_chars(s.as_slice(), p.as_slice()) {
        Some(i) => {
            proof {
                lemma_find_seq(s@, p@);
                lemma_byte_len_append(s@.take(i as int), s@.skip(i as int));
                assert(s@.take(i as int) + s@.skip(i as int) =~= s@);
            }
            let b = byte_offset(s.as_slice(), i);
            b + 1
        },
        None => {
            assert(s@.take(s@.len() as int) =~= s@);
            let total = byte_offset(s.as_slice(), s.len());
            proof {
                if s@.len() > 0 {
                    lemma_byte_len_push(s@.drop_last(), s@.last());
                    assert(s@.drop_last().push(s@.last()) =~= s@);
                }
            }
            total - 1
        },
    }
}

/// The byte offset of the first match of `pattern` in the input, or, where
/// there is none, the offset of the input's last byte.
pub fn get_next_element_until_exclusive(input: &str, pattern: &str) -> (r: usize)
    requires
        byte_find(input@, pattern@) is Some || input@.len() > 0,
        byte_len(input@) <= usize::MAX,
    ensures
        r == until_exclusive(input@, pattern@),
{
    let s = str_to_chars(input);
    let p = str_to_chars(pattern);
    match find_chars(s.as_slice(), p.as_slice()) {
        Some(i) => {
            proof {
                lemma_find_seq(s@, p@);
                lemma_byte_len_append(s@.take(i as int), s@.skip(i as int));
                assert(s@.take(i as int) + s@.skip(i as int) =~= s@);
            }
            byte_offset(s.as_slice(), i)
        },
        None => {
            assert(s@.take(s@.len() as int) =~= s@);
            let total = byte_offset(s.as_slice(), s.len());
            proof {
                if s@.len() > 0 {
                    lemma_byte_len_push(s@.drop_last(), s@.last());
                    assert(s@.drop_last().push(s@.last()) =~= s@);
                }
            }
            total - 1
        },
    }
}

} // verus!
