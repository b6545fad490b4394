//! Taking string literals out of Pkl source before it is cut into tokens:
//! each literal is replaced by `"n"`, its index, and the literals are kept
//! in the order they appear.
use vstd::prelude::*;
use crate::format::{decimal, spec_decimal};
use crate::text::{chars_to_string, find_lit, find_seq, lemma_find_seq, push_all, push_str, slice_of, str_to_chars, strings_view};

verus! {

/// What the string-literal pattern (`#"..."#` raw strings, `"""..."""`
/// multi-line strings and `"..."` strings) matches in `code`, left to
/// right, without overlaps.
pub uninterp spec fn string_literal_matches(code: Seq<char>) -> Seq<Seq<char>>;

/// `regex::Regex::find_iter` of the string-literal pattern over `code`: the
/// matched texts, in order.
#[verifier::external_body]
fn find_string_literals(code: &str) -> (r: Vec<String>)
    ensures
        strings_view(r@) == string_literal_matches(code@),
{
    let re = regex::Regex::new(r##"(#+"(?:\\"|[^"])*"#+|"""(?:\\"|[^"])*"""|"(?:\\"|[^"])*")"##).unwrap();
    re.find_iter(code).map(|m| m.as_str().to_string()).collect()
}

/// `str::replacen(s, pat, rep, 1)`: the first occurrence of `pat` replaced.
pub open spec fn replace_first(s: Seq<char>, pat: Seq<char>, rep: Seq<char>) -> Seq<char> {
    match find_seq(s, pat) {
        Some(i) => s.take(i) + rep + s.skip(i + pat.len()),
        None => s,
    }
}

/// The placeholder of the `k`-th literal: `"k"`.
pub open spec fn placeholder(k: nat) -> Seq<char> {
    seq!['"'] + spec_decimal(k) + seq!['"']
}

/// The code after replacing the first `n` literals, each by its placeholder,
/// one after the other.
pub open spec fn replaced_upto(code: Seq<char>, lits: Seq<Seq<char>>, n: int) -> Seq<char>
    decreases n,
{
    if n <= 0 || n > lits.len() {
        code
    } else {
        replace_first(replaced_upto(code, lits, n - 1), lits[n - 1], placeholder((n - 1) as nat))
    }
}

/// Replaces, in turn, the first occurrence of each literal by its
/// placeholder.
pub fn replace_literals(code: &str, literals: &Vec<String>) -> (r: String)
    ensures
        r@ == replaced_upto(code@, strings_view(literals@), literals@.len() as int),
{
    let ghost lits = strings_view(literals@);
    let mut cur = str_to_chars(code);
    let mut k: usize = 0;
    while k < literals.len()
        invariant
            k <= literals@.len(),
            lits == strings_view(literals@),
            cur@ == replaced_upto(code@, lits, k as int),
        decreases literals@.len() - k,
    {
        let lit = literals[k].as_str();
        assert(lits[k as int] == lit@);
        match find_lit(cur.as_slice(), lit) {
            Some(i) => {
                proof {
                    lemma_find_seq(cur@, lit@);
                }
                let n = lit.unicode_len();
                let len = cur.len();
                assert(i + n <= len);
                let mut next = slice_of(cur.as_slice(), 0, i);
                push_str(&mut next, "\"");
                let d = decimal(k as u64);
                push_str(&mut next, d.as_str());
                push_str(&mut next, "\"");
                let rest = slice_of(cur.as_slice(), i + n, len);
                push_all(&mut next, &rest);
                proof {
                    reveal_strlit("\"");
                    assert(next@ =~= cur@.take(i as int) + placeholder(k as nat) + cur@.skip(i + n));
                }
                cur = next;
            },
            None => {},
        }
        k = k + 1;
    }
    chars_to_string(&cur)
}

/// Takes the string literals out of `code`: the code with each literal, in
/// turn, replaced by `"n"` (its index), and the literals in the order they
/// appear.
pub fn sanitize_code(code: &str) -> (r: (String, Vec<String>))
    ensures
        strings_view(r.1@) == string_literal_matches(code@),
        r.0@ == replaced_upto(code@, string_literal_matches(code@), string_literal_matches(code@).len() as int),
{
    let literals = find_string_literals(code);
    let replaced = replace_literals(code, &literals);
    (replaced, literals)
}

} // verus!
