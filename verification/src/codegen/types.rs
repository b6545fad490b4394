//! Mapping Pkl type expressions to Rust types, and Pkl names to Rust names.
use vstd::prelude::*;
use crate::text::{
    ascii_lower, ascii_upper, chars_to_string, char_is_uppercase, eq_lit, find, find_char, join,
    lemma_find_char, lemma_find_char_at, lemma_rfind_char, lemma_trim_len, lit, push_all,
    push_str, rfind, rfind_char, seq_contains_char, slice_of, spec_ascii_lower, spec_ascii_upper,
    split_char, split_on, starts_with, starts_with_lit, str_to_chars, contains, is_uppercase,
    trim, trim_char, trim_char_chars, trim_chars, ascii_whitespace_as_std, unpadded, lemma_trim_unpadded,
    char_is_whitespace, trim_start, trim_end,
};

verus! {

// ───────────────────────── Names ─────────────────────────

/// `camelCase` to `snake_case`: an underscore before every uppercase
/// character but the first, and ASCII letters lowered.
pub open spec fn spec_to_snake_case(s: Seq<char>) -> Seq<char>
    decreases s.len(),
{
    if s.len() == 0 {
        seq![]
    } else {
        let prev = spec_to_snake_case(s.drop_last());
        let c = s.last();
        if char_is_uppercase(c) && s.len() > 1 {
            prev + seq!['_', spec_ascii_lower(c)]
        } else {
            prev.push(spec_ascii_lower(c))
        }
    }
}

pub fn to_snake_case_chars(s: &[char]) -> (r: Vec<char>)
    ensures
        r@ == spec_to_snake_case(s@),
{
    let mut out: Vec<char> = Vec::new();
    let mut i: usize = 0;
    while i < s.len()
        invariant
            i <= s@.len(),
            out@ == spec_to_snake_case(s@.take(i as int)),
        decreases s@.len() - i,
    {
        let ch = s[i];
        proof {
            assert(s@.take(i + 1).drop_last() =~= s@.take(i as int));
            assert(s@.take(i + 1).last() == ch);
        }
        if is_uppercase(ch) && i > 0 {
            out.push('_');
        }
        out.push(ascii_lower(ch));
        i = i + 1;
    }
    assert(s@.take(s@.len() as int) =~= s@);
    out
}

/// Converts a Pkl `camelCase` name to a Rust `snake_case` name.
pub fn to_snake_case(s: &str) -> (r: String)
    ensures
        r@ == spec_to_snake_case(s@),
{
    let v = str_to_chars(s);
    chars_to_string(&to_snake_case_chars(&v))
}

/// The `camelCase` form of a `snake_case` name built from the first
/// characters of `s`, and whether the next character is to be raised.
pub open spec fn camel_state(s: Seq<char>) -> (Seq<char>, bool)
    decreases s.len(),
{
    if s.len() == 0 {
        (seq![], false)
    } else {
        let (r, up) = camel_state(s.drop_last());
        let c = s.last();
        if c == '_' {
            (r, true)
        } else if up {
            (r.push(spec_ascii_upper(c)), false)
        } else {
            (r.push(c), false)
        }
    }
}

/// `snake_case` to `camelCase`: underscores dropped, and the character
/// after each raised to ASCII uppercase.
pub open spec fn spec_snake_to_camel(s: Seq<char>) -> Seq<char> {
    camel_state(s).0
}

/// Converts a Rust `snake_case` name to the Pkl `camelCase` name that the
/// decoder derive looks the field up by.
pub fn snake_to_camel(s: &str) -> (r: String)
    ensures
        r@ == spec_snake_to_camel(s@),
{
    let v = str_to_chars(s);
    let mut out: Vec<char> = Vec::new();
    let mut upper_next = false;
    let mut i: usize = 0;
    while i < v.len()
        invariant
            i <= v@.len(),
            (out@, upper_next) == camel_state(v@.take(i as int)),
        decreases v@.len() - i,
    {
        let ch = v[i];
        proof {
            assert(v@.take(i + 1).drop_last() =~= v@.take(i as int));
            assert(v@.take(i + 1).last() == ch);
        }
        if ch == '_' {
            upper_next = true;
        } else if upper_next {
            out.push(ascii_upper(ch));
            upper_next = false;
        } else {
            out.push(ch);
        }
        i = i + 1;
    }
    assert(v@.take(v@.len() as int) =~= v@);
    chars_to_string(&out)
}

/// A `camelCase` name made of ASCII characters other than `_`, starting with
/// a character that is not uppercase, where `char::is_uppercase` holds of
/// exactly the ASCII capitals.
pub open spec fn is_plain_camel(s: Seq<char>) -> bool {
    &&& forall|i: int|
        0 <= i < s.len() ==> (#[trigger] s[i] as u32) < 128 && s[i] != '_' && (char_is_uppercase(s[i])
            <==> ('A' <= s[i] && s[i] <= 'Z'))
    &&& s.len() > 0 ==> !char_is_uppercase(s[0])
}

proof fn lemma_snake_camel_state(s: Seq<char>)
    requires
        is_plain_camel(s),
    ensures
        camel_state(spec_to_snake_case(s)) == (s, false),
        s.len() > 0 ==> spec_to_snake_case(s).len() > 0 && spec_to_snake_case(s).last() != '_',
    decreases s.len(),
{
    if s.len() > 0 {
        let p = s.drop_last();
        assert(is_plain_camel(p)) by {
            assert forall|i: int| 0 <= i < p.len() implies (#[trigger] p[i] as u32) < 128 && p[i] != '_'
                && (char_is_uppercase(p[i]) <==> ('A' <= p[i] && p[i] <= 'Z')) by {
                assert(p[i] == s[i]);
            }
            if p.len() > 0 {
                assert(p[0] == s[0]);
            }
        }
        lemma_snake_camel_state(p);
        let t = spec_to_snake_case(p);
        let c = s.last();
        assert(c == s[s.len() - 1]);
        if char_is_uppercase(c) && s.len() > 1 {
            let u = t + seq!['_', spec_ascii_lower(c)];
            assert(u.drop_last() =~= t.push('_'));
            assert(t.push('_').drop_last() =~= t);
            assert(u.last() == spec_ascii_lower(c));
            assert(spec_ascii_upper(spec_ascii_lower(c)) == c) by {
                assert('A' <= c && c <= 'Z');
            }
            assert(spec_ascii_lower(c) != '_');
            assert(camel_state(t.push('_')) == (p, true));
            assert(p.push(c) =~= s);
            assert(camel_state(u) == (p.push(c), false));
            assert(spec_to_snake_case(s) == u);
        } else {
            if s.len() == 1 {
                assert(c == s[0]);
            }
            assert(!('A' <= c && c <= 'Z'));
            assert(spec_ascii_lower(c) == c);
            assert(t.push(c).drop_last() =~= t);
            assert(p.push(c) =~= s);
            assert(spec_to_snake_case(s) == t.push(c));
            assert(camel_state(t.push(c)) == (p.push(c), false));
        }
    }
}

/// A Pkl property name survives the trip through a generated Rust field:
/// the decoder derive's `snake_to_camel` of the field name that
/// `to_snake_case` gives is the property name again, for `camelCase` names
/// of ASCII characters without underscores that start in lowercase.
pub proof fn lemma_snake_camel_roundtrip(s: Seq<char>)
    requires
        is_plain_camel(s),
    ensures
        spec_snake_to_camel(spec_to_snake_case(s)) == s,
{
    lemma_snake_camel_state(s);
}

pub open spec fn is_word_separator(c: char) -> bool {
    c == '_' || c == '-' || c == ' '
}

/// The identifier built from the first characters of `s`, and whether the
/// next kept character starts a new word.
pub open spec fn ident_chars(s: Seq<char>) -> (Seq<char>, bool)
    decreases s.len(),
{
    if s.len() == 0 {
        (seq![], true)
    } else {
        let (r, up) = ident_chars(s.drop_last());
        let c = s.last();
        if is_word_separator(c) {
            (r, true)
        } else if up {
            (r.push(spec_ascii_upper(c)), false)
        } else {
            (r.push(spec_ascii_lower(c)), false)
        }
    }
}

/// `snake_case`, `kebab-case` or spaced words to `PascalCase`; `Empty` for
/// the empty string.
pub open spec fn spec_to_rust_ident(s: Seq<char>) -> Seq<char> {
    if s.len() == 0 {
        "Empty"@
    } else {
        ident_chars(s).0
    }
}

pub fn to_rust_ident_chars(s: &[char]) -> (r: Vec<char>)
    ensures
        r@ == spec_to_rust_ident(s@),
{
    if s.len() == 0 {
        return lit("Empty");
    }
    let mut out: Vec<char> = Vec::new();
    let mut upper_next = true;
    let mut i: usize = 0;
    while i < s.len()
        invariant
            i <= s@.len(),
            (out@, upper_next) == ident_chars(s@.take(i as int)),
        decreases s@.len() - i,
    {
        let ch = s[i];
        proof {
            assert(s@.take(i + 1).drop_last() =~= s@.take(i as int));
            assert(s@.take(i + 1).last() == ch);
        }
        if ch == '_' || ch == '-' || ch == ' ' {
            upper_next = true;
        } else if upper_next {
            out.push(ascii_upper(ch));
            upper_next = false;
        } else {
            out.push(ascii_lower(ch));
        }
        i = i + 1;
    }
    assert(s@.take(s@.len() as int) =~= s@);
    out
}

/// Converts a string value to a Rust identifier in `PascalCase`.
pub fn to_rust_ident(s: &str) -> (r: String)
    ensures
        r@ == spec_to_rust_ident(s@),
{
    let v = str_to_chars(s);
    chars_to_string(&to_rust_ident_chars(&v))
}

// ───────────────────────── Generic parameters ─────────────────────────

/// The text between the first `<` and the last `>`.
pub open spec fn generic_inner(t: Seq<char>) -> Option<Seq<char>> {
    match (find_char(t, '<'), rfind_char(t, '>')) {
        (Some(a), Some(b)) => Some(t.subrange(a + 1, b)),
        _ => None,
    }
}

/// The last `>` does not come before the first `<`: the text between them
/// can be sliced out.
pub open spec fn generics_in_order(t: Seq<char>) -> bool {
    match (find_char(t, '<'), rfind_char(t, '>')) {
        (Some(a), Some(b)) => a < b,
        _ => true,
    }
}

/// The single generic parameter: `None` when there are no brackets or the
/// parameter list holds a comma.
pub open spec fn spec_generic_param(t: Seq<char>) -> Option<Seq<char>> {
    match generic_inner(t) {
        Some(inner) => if seq_contains_char(inner, ',') {
            None
        } else {
            Some(trim(inner))
        },
        None => None,
    }
}

/// Splits `s` at the commas outside angle brackets; `depth` is the bracket
/// depth reached so far and `cur` the piece read so far. Pieces are trimmed;
/// a last piece is kept only when it is non-empty before trimming.
pub open spec fn generic_split(s: Seq<char>, depth: int, cur: Seq<char>) -> Seq<Seq<char>>
    decreases s.len(),
{
    if s.len() == 0 {
        if cur.len() > 0 {
            seq![trim(cur)]
        } else {
            seq![]
        }
    } else {
        let c = s[0];
        if c == '<' {
            generic_split(s.drop_first(), depth + 1, cur.push(c))
        } else if c == '>' {
            generic_split(s.drop_first(), depth - 1, cur.push(c))
        } else if c == ',' && depth == 0 {
            seq![trim(cur)] + generic_split(s.drop_first(), 0, seq![])
        } else {
            generic_split(s.drop_first(), depth, cur.push(c))
        }
    }
}

/// The top-level comma-separated generic parameters, each trimmed.
pub open spec fn spec_generic_params(t: Seq<char>) -> Seq<Seq<char>> {
    match generic_inner(t) {
        Some(inner) => generic_split(inner, 0, seq![]),
        None => seq![],
    }
}

pub proof fn lemma_generic_split_len(s: Seq<char>, depth: int, cur: Seq<char>)
    ensures
        forall|k: int|
            0 <= k < generic_split(s, depth, cur).len() ==> (#[trigger] generic_split(
                s,
                depth,
                cur,
            )[k]).len() <= cur.len() + s.len(),
    decreases s.len(),
{
    if s.len() == 0 {
        lemma_trim_len(cur);
        if cur.len() > 0 {
            assert(generic_split(s, depth, cur) =~= seq![trim(cur)]);
        } else {
            assert(generic_split(s, depth, cur) =~= Seq::<Seq<char>>::empty());
        }
    } else {
        let c = s[0];
        if c == '<' {
            lemma_generic_split_len(s.drop_first(), depth + 1, cur.push(c));
            assert(generic_split(s, depth, cur) == generic_split(s.drop_first(), depth + 1, cur.push(c)));
        } else if c == '>' {
            lemma_generic_split_len(s.drop_first(), depth - 1, cur.push(c));
            assert(generic_split(s, depth, cur) == generic_split(s.drop_first(), depth - 1, cur.push(c)));
        } else if c == ',' && depth == 0 {
            lemma_trim_len(cur);
            lemma_generic_split_len(s.drop_first(), 0, seq![]);
            let r = generic_split(s.drop_first(), 0, seq![]);
            assert(generic_split(s, depth, cur) == seq![trim(cur)] + r);
            assert forall|k: int| 0 <= k < (seq![trim(cur)] + r).len() implies (#[trigger] (
            seq![trim(cur)] + r)[k]).len() <= cur.len() + s.len() by {
                if k > 0 {
                    assert((seq![trim(cur)] + r)[k] == r[k - 1]);
                }
            }
        } else {
            lemma_generic_split_len(s.drop_first(), depth, cur.push(c));
            assert(generic_split(s, depth, cur) == generic_split(s.drop_first(), depth, cur.push(c)));
        }
    }
}

pub proof fn lemma_generic_inner_len(t: Seq<char>)
    requires
        generics_in_order(t),
    ensures
        generic_inner(t) matches Some(inner) ==> inner.len() < t.len(),
{
    lemma_find_char(t, '<');
    lemma_rfind_char(t, '>');
}

/// When `t` starts with `p`, a name followed by `<` with no brackets in the
/// name, the first `<` of `t` ends that prefix and no `>` comes before it.
pub proof fn lemma_prefix_generics(t: Seq<char>, p: Seq<char>)
    requires
        starts_with(t, p),
        p.len() > 0,
        p.last() == '<',
        forall|j: int| 0 <= j < p.len() - 1 ==> p[j] != '<' && p[j] != '>',
    ensures
        generics_in_order(t),
        find_char(t, '<') == Some(p.len() - 1),
{
    assert forall|j: int| 0 <= j < p.len() - 1 implies t[j] != '<' by {
        assert(t.take(p.len() as int)[j] == t[j]);
    }
    assert(t[p.len() - 1] == '<') by {
        assert(t.take(p.len() as int)[p.len() - 1] == t[p.len() - 1]);
    }
    lemma_find_char_at(t, '<', p.len() - 1);
    lemma_rfind_char(t, '>');
    if let Some(b) = rfind_char(t, '>') {
        if b < p.len() {
            assert(t.take(p.len() as int)[b] == t[b]);
        }
    }
}

fn generic_bounds(t: &[char]) -> (r: Option<(usize, usize)>)
    requires
        generics_in_order(t@),
    ensures
        r matches Some((a, b)) ==> a < b <= t@.len() && generic_inner(t@) == Some(
            t@.subrange(a + 1, b as int),
        ),
        r is None ==> generic_inner(t@) is None,
{
    let a = find(t, '<');
    let b = rfind(t, '>');
    proof {
        lemma_find_char(t@, '<');
        lemma_rfind_char(t@, '>');
    }
    match (a, b) {
        (Some(a), Some(b)) => Some((a, b)),
        _ => None,
    }
}

/// `extract_generic_param`: the single generic parameter of `t`, if any.
pub fn extract_generic_param(t: &[char]) -> (r: Option<Vec<char>>)
    requires
        generics_in_order(t@),
    ensures
        r matches Some(x) ==> spec_generic_param(t@) == Some(x@),
        r is None ==> spec_generic_param(t@) is None,
{
    match generic_bounds(t) {
        None => None,
        Some((a, b)) => {
            let inner = slice_of(t, a + 1, b);
            if contains(&inner, ',') {
                None
            } else {
                Some(trim_chars(&inner))
            }
        },
    }
}

/// `extract_generic_params`: the top-level generic parameters of `t`.
pub fn extract_generic_params(t: &[char]) -> (r: Vec<Vec<char>>)
    requires
        generics_in_order(t@),
    ensures
        r@.len() == spec_generic_params(t@).len(),
        forall|k: int| 0 <= k < r@.len() ==> (#[trigger] r@[k])@ == spec_generic_params(t@)[k],
{
    let mut params: Vec<Vec<char>> = Vec::new();
    match generic_bounds(t) {
        None => params,
        Some((a, b)) => {
            let inner = slice_of(t, a + 1, b);
            let ghost all = generic_split(inner@, 0, seq![]);
            let ghost mut acc: Seq<Seq<char>> = seq![];
            let mut depth: i128 = 0;
            let mut current: Vec<char> = Vec::new();
            let mut k: usize = 0;
            assert(inner@.skip(0) =~= inner@);
            while k < inner.len()
                invariant
                    k <= inner@.len(),
                    all == generic_split(inner@, 0, seq![]),
                    all == acc + generic_split(inner@.skip(k as int), depth as int, current@),
                    -(k as int) <= depth <= k,
                    params@.len() == acc.len(),
                    forall|m: int| 0 <= m < params@.len() ==> (#[trigger] params@[m])@ == acc[m],
                decreases inner@.len() - k,
            {
                let ch = inner[k];
                let ghost u = inner@.skip(k as int);
                assert(u[0] == ch);
                assert(u.drop_first() =~= inner@.skip(k + 1));
                if ch == '<' {
                    depth = depth + 1;
                    current.push(ch);
                } else if ch == '>' {
                    depth = depth - 1;
                    current.push(ch);
                } else if ch == ',' && depth == 0 {
                    let piece = trim_chars(&current);
                    proof {
                        assert(acc + (seq![piece@] + generic_split(u.drop_first(), 0, seq![]))
                            =~= acc.push(piece@) + generic_split(u.drop_first(), 0, seq![]));
                        acc = acc.push(piece@);
                    }
                    params.push(piece);
                    current = Vec::new();
                    assert(current@ =~= Seq::<char>::empty());
                } else {
                    current.push(ch);
                }
                k = k + 1;
            }
            assert(inner@.skip(k as int) =~= Seq::<char>::empty());
            if current.len() > 0 {
                let piece = trim_chars(&current);
                proof {
                    acc = acc.push(piece@);
                }
                params.push(piece);
            } else {
                assert(acc + seq![] =~= acc);
            }
            params
        },
    }
}

// ───────────────────────── Type mapping ─────────────────────────

pub open spec fn is_int_type(t: Seq<char>) -> bool {
    t == "Int"@ || t == "UInt"@ || t == "Int8"@ || t == "Int16"@ || t == "Int32"@ || t
        == "UInt8"@ || t == "UInt16"@ || t == "UInt32"@
}

/// Whether a union member is a string literal (starts and ends with `"`).
pub open spec fn is_quoted(p: Seq<char>) -> bool {
    p.len() > 0 && p[0] == '"' && p.last() == '"'
}

pub open spec fn all_quoted(parts: Seq<Seq<char>>) -> bool {
    forall|k: int| 0 <= k < parts.len() ==> is_quoted(trim(#[trigger] parts[k]))
}

/// The union-member names used in the comment of a literal union: each
/// member trimmed, unquoted, and made an identifier.
pub open spec fn union_member_idents(parts: Seq<Seq<char>>) -> Seq<Seq<char>> {
    Seq::new(parts.len(), |k: int| spec_to_rust_ident(trim_char(trim(parts[k]), '"')))
}

/// The Rust type for a Pkl type expression.
pub open spec fn spec_map_type(t0: Seq<char>) -> Seq<char>
    decreases t0.len(),
{
    let t = trim(t0);
    if t == "String"@ {
        "String"@
    } else if is_int_type(t) {
        "i64"@
    } else if t == "Float"@ {
        "f64"@
    } else if t == "Boolean"@ {
        "bool"@
    } else if t == "Duration"@ {
        "Duration"@
    } else if t == "DataSize"@ {
        "DataSize"@
    } else if t == "Null"@ || t == "Nothing"@ || t == "Unit"@ {
        "()"@
    } else if t == "Any"@ || t == "unknown"@ || t == "Dynamic"@ {
        "Value"@
    } else if starts_with(t, "List<"@) || starts_with(t, "Listing<"@) || starts_with(t, "Set<"@) {
        let inner = match spec_generic_param(t) {
            Some(x) => {
                proof {
                    lemma_trim_len(t0);
                    lemma_list_like_generics(t);
                    lemma_generic_inner_len(t);
                    lemma_trim_len(generic_inner(t).unwrap());
                }
                spec_map_type(x)
            },
            None => "Value"@,
        };
        "Vec<"@ + inner + ">"@
    } else if starts_with(t, "Map<"@) || starts_with(t, "Mapping<"@) {
        let params = spec_generic_params(t);
        if params.len() == 2 {
            proof {
                lemma_trim_len(t0);
                lemma_map_like_generics(t);
                lemma_generic_inner_len(t);
                lemma_generic_split_len(generic_inner(t).unwrap(), 0, seq![]);
            }
            "BTreeMap<"@ + spec_map_type(params[0]) + ", "@ + spec_map_type(params[1]) + ">"@
        } else {
            "BTreeMap<Value, Value>"@
        }
    } else if starts_with(t, "Pair<"@) {
        let params = spec_generic_params(t);
        if params.len() == 2 {
            proof {
                lemma_trim_len(t0);
                lemma_pair_generics(t);
                lemma_generic_inner_len(t);
                lemma_generic_split_len(generic_inner(t).unwrap(), 0, seq![]);
            }
            "("@ + spec_map_type(params[0]) + ", "@ + spec_map_type(params[1]) + ")"@
        } else {
            "(Value, Value)"@
        }
    } else if t == "Regex"@ {
        "String"@
    } else if t == "Bytes"@ {
        "Vec<u8>"@
    } else if t == "Number"@ {
        "f64"@
    } else if seq_contains_char(t, '|') {
        let parts = split_char(t, '|');
        if all_quoted(parts) {
            "String /* union: "@ + join(union_member_idents(parts), "Or"@) + " */"@
        } else {
            "Value"@
        }
    } else if is_quoted(t) {
        "String"@
    } else {
        t
    }
}

pub proof fn lemma_list_like_generics(t: Seq<char>)
    requires
        starts_with(t, "List<"@) || starts_with(t, "Listing<"@) || starts_with(t, "Set<"@),
    ensures
        generics_in_order(t),
{
    reveal_strlit("List<");
    reveal_strlit("Listing<");
    reveal_strlit("Set<");
    if starts_with(t, "List<"@) {
        lemma_prefix_generics(t, "List<"@);
    } else if starts_with(t, "Listing<"@) {
        lemma_prefix_generics(t, "Listing<"@);
    } else {
        lemma_prefix_generics(t, "Set<"@);
    }
}

pub proof fn lemma_map_like_generics(t: Seq<char>)
    requires
        starts_with(t, "Map<"@) || starts_with(t, "Mapping<"@),
    ensures
        generics_in_order(t),
{
    reveal_strlit("Map<");
    reveal_strlit("Mapping<");
    if starts_with(t, "Map<"@) {
        lemma_prefix_generics(t, "Map<"@);
    } else {
        lemma_prefix_generics(t, "Mapping<"@);
    }
}

pub proof fn lemma_pair_generics(t: Seq<char>)
    requires
        starts_with(t, "Pair<"@),
    ensures
        generics_in_order(t),
{
    reveal_strlit("Pair<");
    lemma_prefix_generics(t, "Pair<"@);
}

fn is_int_type_exec(t: &[char]) -> (r: bool)
    ensures
        r == is_int_type(t@),
{
    eq_lit(t, "Int") || eq_lit(t, "UInt") || eq_lit(t, "Int8") || eq_lit(t, "Int16") || eq_lit(
        t,
        "Int32",
    ) || eq_lit(t, "UInt8") || eq_lit(t, "UInt16") || eq_lit(t, "UInt32")
}

fn is_quoted_exec(p: &[char]) -> (r: bool)
    ensures
        r == is_quoted(p@),
{
    p.len() > 0 && p[0] == '"' && p[p.len() - 1] == '"'
}

/// The type for a literal union: a `String` with the members named in a comment.
fn union_type(t: &[char]) -> (r: Vec<char>)
    ensures
        r@ == (if all_quoted(split_char(t@, '|')) {
            "String /* union: "@ + join(union_member_idents(split_char(t@, '|')), "Or"@)
                + " */"@
        } else {
            "Value"@
        }),
{
    let parts = split_on(t, '|');
    let ghost ps = split_char(t@, '|');
    let mut k: usize = 0;
    while k < parts.len()
        invariant
            ps == split_char(t@, '|'),
            k <= parts@.len(),
            parts@.len() == ps.len(),
            forall|m: int| 0 <= m < parts@.len() ==> (#[trigger] parts@[m])@ == ps[m],
            forall|m: int| 0 <= m < k ==> is_quoted(trim(#[trigger] ps[m])),
        decreases parts@.len() - k,
    {
        let p = trim_chars(&parts[k]);
        if !is_quoted_exec(&p) {
            assert(!is_quoted(trim(ps[k as int])));
            assert(!all_quoted(ps));
            return lit("Value");
        }
        k = k + 1;
    }
    let mut out = lit("String /* union: ");
    let ghost idents = union_member_idents(ps);
    let mut j: usize = 0;
    let ghost start = out@;
    while j < parts.len()
        invariant
            j <= parts@.len(),
            parts@.len() == ps.len(),
            idents == union_member_idents(ps),
            forall|m: int| 0 <= m < parts@.len() ==> (#[trigger] parts@[m])@ == ps[m],
            out@ == start + join(idents.take(j as int), "Or"@),
        decreases parts@.len() - j,
    {
        let p = trim_chars(&parts[j]);
        let q = trim_char_chars(&p, '"');
        let id = to_rust_ident_chars(&q);
        let ghost before = out@;
        if j > 0 {
            push_str(&mut out, "Or");
        }
        push_all(&mut out, &id);
        proof {
            let tk = idents.take(j + 1);
            assert(tk.drop_last() =~= idents.take(j as int));
            assert(tk.last() == id@);
            if j == 0 {
                assert(tk =~= seq![id@]);
                assert(join(idents.take(0), "Or"@) =~= Seq::<char>::empty());
                assert(before =~= start);
            }
            assert(out@ =~= start + join(tk, "Or"@));
        }
        j = j + 1;
    }
    assert(idents.take(parts@.len() as int) =~= idents);
    push_str(&mut out, " */");
    assert(out@ =~= "String /* union: "@ + join(idents, "Or"@) + " */"@);
    out
}

/// Maps a Pkl type expression to the Rust type used in generated code.
pub fn map_pkl_type_chars(t0: &[char]) -> (r: Vec<char>)
    ensures
        r@ == spec_map_type(t0@),
    decreases t0@.len(),
{
    let t = trim_chars(t0);
    proof {
        lemma_trim_len(t0@);
    }
    if eq_lit(&t, "String") {
        lit("String")
    } else if is_int_type_exec(&t) {
        lit("i64")
    } else if eq_lit(&t, "Float") {
        lit("f64")
    } else if eq_lit(&t, "Boolean") {
        lit("bool")
    } else if eq_lit(&t, "Duration") {
        lit("Duration")
    } else if eq_lit(&t, "DataSize") {
        lit("DataSize")
    } else if eq_lit(&t, "Null") || eq_lit(&t, "Nothing") || eq_lit(&t, "Unit") {
        lit("()")
    } else if eq_lit(&t, "Any") || eq_lit(&t, "unknown") || eq_lit(&t, "Dynamic") {
        lit("Value")
    } else if starts_with_lit(&t, "List<") || starts_with_lit(&t, "Listing<") || starts_with_lit(
        &t,
        "Set<",
    ) {
        proof {
            lemma_list_like_generics(t@);
        }
        let mut out = lit("Vec<");
        match extract_generic_param(&t) {
            Some(x) => {
                proof {
                    lemma_generic_inner_len(t@);
                    lemma_trim_len(generic_inner(t@).unwrap());
                }
                let m = map_pkl_type_chars(&x);
                push_all(&mut out, &m);
            },
            None => {
                push_str(&mut out, "Value");
            },
        }
        push_str(&mut out, ">");
        out
    } else if starts_with_lit(&t, "Map<") || starts_with_lit(&t, "Mapping<") {
        proof {
            lemma_map_like_generics(t@);
        }
        let params = extract_generic_params(&t);
        if params.len() == 2 {
            proof {
                lemma_generic_inner_len(t@);
                lemma_generic_split_len(generic_inner(t@).unwrap(), 0, seq![]);
            }
            let a = map_pkl_type_chars(&params[0]);
            let b = map_pkl_type_chars(&params[1]);
            let mut out = lit("BTreeMap<");
            push_all(&mut out, &a);
            push_str(&mut out, ", ");
            push_all(&mut out, &b);
            push_str(&mut out, ">");
            out
        } else {
            lit("BTreeMap<Value, Value>")
        }
    } else if starts_with_lit(&t, "Pair<") {
        proof {
            lemma_pair_generics(t@);
        }
        let params = extract_generic_params(&t);
        if params.len() == 2 {
            proof {
                lemma_generic_inner_len(t@);
                lemma_generic_split_len(generic_inner(t@).unwrap(), 0, seq![]);
            }
            let a = map_pkl_type_chars(&params[0]);
            let b = map_pkl_type_chars(&params[1]);
            let mut out = lit("(");
            push_all(&mut out, &a);
            push_str(&mut out, ", ");
            push_all(&mut out, &b);
            push_str(&mut out, ")");
            out
        } else {
            lit("(Value, Value)")
        }
    } else if eq_lit(&t, "Regex") {
        lit("String")
    } else if eq_lit(&t, "Bytes") {
        lit("Vec<u8>")
    } else if eq_lit(&t, "Number") {
        lit("f64")
    } else if contains(&t, '|') {
        union_type(&t)
    } else if is_quoted_exec(&t) {
        lit("String")
    } else {
        t
    }
}

/// Maps a Pkl type expression to the Rust type used in generated code.
pub fn map_pkl_type_str(pkl_type: &str) -> (r: String)
    ensures
        r@ == spec_map_type(pkl_type@),
{
    let v = str_to_chars(pkl_type);
    chars_to_string(&map_pkl_type_chars(&v))
}


/// Text free of the characters that split or nest generic parameters.
pub open spec fn no_generic_punctuation(s: Seq<char>) -> bool {
    forall|i: int| 0 <= i < s.len() ==> #[trigger] s[i] != '<' && s[i] != '>' && s[i] != ','
}

/// Text without a comma.
pub open spec fn comma_free(s: Seq<char>) -> bool {
    forall|i: int| 0 <= i < s.len() ==> #[trigger] s[i] != ','
}

proof fn lemma_split_passes_over(x: Seq<char>, rest: Seq<char>, depth: int, cur: Seq<char>)
    requires
        no_generic_punctuation(x),
    ensures
        generic_split(x + rest, depth, cur) == generic_split(rest, depth, cur + x),
    decreases x.len(),
{
    if x.len() == 0 {
        assert(x + rest =~= rest);
        assert(cur + x =~= cur);
    } else {
        let c = x[0];
        assert((x + rest)[0] == c);
        assert((x + rest).drop_first() =~= x.drop_first() + rest);
        assert(no_generic_punctuation(x.drop_first())) by {
            assert forall|i: int| 0 <= i < x.drop_first().len() implies #[trigger] x.drop_first()[i] != '<'
                && x.drop_first()[i] != '>' && x.drop_first()[i] != ',' by {
                assert(x.drop_first()[i] == x[i + 1]);
            }
        }
        lemma_split_passes_over(x.drop_first(), rest, depth, cur.push(c));
        assert(cur.push(c) + x.drop_first() =~= cur + x);
    }
}

proof fn lemma_split_last_piece(y: Seq<char>, depth: int, cur: Seq<char>)
    requires
        comma_free(y),
        (cur + y).len() > 0,
    ensures
        generic_split(y, depth, cur) == seq![trim(cur + y)],
    decreases y.len(),
{
    if y.len() == 0 {
        assert(cur + y =~= cur);
    } else {
        let c = y[0];
        assert(comma_free(y.drop_first())) by {
            assert forall|i: int| 0 <= i < y.drop_first().len() implies #[trigger] y.drop_first()[i] != ',' by {
                assert(y.drop_first()[i] == y[i + 1]);
            }
        }
        assert(cur.push(c) + y.drop_first() =~= cur + y);
        if c == '<' {
            lemma_split_last_piece(y.drop_first(), depth + 1, cur.push(c));
        } else if c == '>' {
            lemma_split_last_piece(y.drop_first(), depth - 1, cur.push(c));
        } else {
            lemma_split_last_piece(y.drop_first(), depth, cur.push(c));
        }
    }
}

/// `Pair<A, B>` maps to the tuple of the mapped `A` and the mapped `B`, in
/// that order, for any unpadded `A` free of brackets and commas and any
/// unpadded `B` free of commas.
#[verifier::spinoff_prover]
pub proof fn lemma_pair_maps_in_order(a: Seq<char>, b: Seq<char>)
    requires
        ascii_whitespace_as_std(),
        unpadded(a),
        unpadded(b),
        no_generic_punctuation(a),
        comma_free(b),
    ensures
        spec_map_type("Pair<"@ + a + ", "@ + b + ">"@) == "("@ + spec_map_type(a) + ", "@ + spec_map_type(b) + ")"@,
{
    reveal_strlit("Pair<");
    reveal_strlit(", ");
    reveal_strlit(">");
    let t = "Pair<"@ + a + ", "@ + b + ">"@;
    let n = t.len() as int;
    assert(t[0] == 'P');
    assert(t[n - 1] == '>');
    assert(!char_is_whitespace('P'));
    assert(!char_is_whitespace('>'));
    assert(char_is_whitespace(' '));
    lemma_trim_unpadded(t);
    lemma_trim_unpadded(a);
    lemma_trim_unpadded(b);
    // the branches before `Pair<` all need another first character
    reveal_strlit("String");
    reveal_strlit("Int");
    reveal_strlit("UInt");
    reveal_strlit("Int8");
    reveal_strlit("Int16");
    reveal_strlit("Int32");
    reveal_strlit("UInt8");
    reveal_strlit("UInt16");
    reveal_strlit("UInt32");
    reveal_strlit("Float");
    reveal_strlit("Boolean");
    reveal_strlit("Duration");
    reveal_strlit("DataSize");
    reveal_strlit("Null");
    reveal_strlit("Nothing");
    reveal_strlit("Unit");
    reveal_strlit("Any");
    reveal_strlit("unknown");
    reveal_strlit("Dynamic");
    reveal_strlit("List<");
    reveal_strlit("Listing<");
    reveal_strlit("Set<");
    reveal_strlit("Map<");
    reveal_strlit("Mapping<");
    assert(!starts_with(t, "List<"@)) by { if starts_with(t, "List<"@) { assert(t.take(5)[0] == t[0]); } }
    assert(!starts_with(t, "Listing<"@)) by { if starts_with(t, "Listing<"@) { assert(t.take(8)[0] == t[0]); } }
    assert(!starts_with(t, "Set<"@)) by { if starts_with(t, "Set<"@) { assert(t.take(4)[0] == t[0]); } }
    assert(!starts_with(t, "Map<"@)) by { if starts_with(t, "Map<"@) { assert(t.take(4)[0] == t[0]); } }
    assert(!starts_with(t, "Mapping<"@)) by { if starts_with(t, "Mapping<"@) { assert(t.take(8)[0] == t[0]); } }
    assert(t.take(5) =~= "Pair<"@);
    assert(starts_with(t, "Pair<"@));
    // the parameters are `A` and `B`
    lemma_prefix_generics(t, "Pair<"@);
    assert(rfind_char(t, '>') == Some(n - 1));
    let inner = a + (", "@ + b);
    assert(t.subrange(5, n - 1) =~= inner);
    assert(generic_inner(t) == Some(inner));
    lemma_split_passes_over(a, ", "@ + b, 0, seq![]);
    assert(Seq::<char>::empty() + a =~= a);
    let rest = ", "@ + b;
    assert(rest[0] == ',');
    assert(rest.drop_first() =~= seq![' '] + b);
    assert(comma_free(seq![' '] + b)) by {
        assert forall|i: int| 0 <= i < (seq![' '] + b).len() implies #[trigger] (seq![' '] + b)[i] != ',' by {
            if i > 0 {
                assert((seq![' '] + b)[i] == b[i - 1]);
            }
        }
    }
    lemma_split_last_piece(seq![' '] + b, 0, seq![]);
    assert(Seq::<char>::empty() + (seq![' '] + b) =~= seq![' '] + b);
    assert(trim_start(seq![' '] + b) == trim_start((seq![' '] + b).drop_first()));
    assert((seq![' '] + b).drop_first() =~= b);
    assert(trim(seq![' '] + b) == b);
    assert(generic_split(rest, 0, a) == seq![trim(a)] + generic_split(rest.drop_first(), 0, seq![]));
    let params = spec_generic_params(t);
    assert(params =~= seq![a, b]);
}

/// `Map<K, V>` maps to `BTreeMap` of the mapped `K` and the mapped `V`, in
/// that order, for any unpadded `K` free of brackets and commas and any
/// unpadded `V` free of commas.
#[verifier::spinoff_prover]
pub proof fn lemma_map_maps_in_order(a: Seq<char>, b: Seq<char>)
    requires
        ascii_whitespace_as_std(),
        unpadded(a),
        unpadded(b),
        no_generic_punctuation(a),
        comma_free(b),
    ensures
        spec_map_type("Map<"@ + a + ", "@ + b + ">"@) == "BTreeMap<"@ + spec_map_type(a) + ", "@ + spec_map_type(b) + ">"@,
{
    reveal_strlit("Map<");
    reveal_strlit(", ");
    reveal_strlit(">");
    let t = "Map<"@ + a + ", "@ + b + ">"@;
    let n = t.len() as int;
    assert(t[0] == 'M');
    assert(t[n - 1] == '>');
    assert(!char_is_whitespace('M'));
    assert(!char_is_whitespace('>'));
    assert(char_is_whitespace(' '));
    lemma_trim_unpadded(t);
    lemma_trim_unpadded(a);
    lemma_trim_unpadded(b);
    // the branches before `Map<` all need another first character
    reveal_strlit("String");
    reveal_strlit("Int");
    reveal_strlit("UInt");
    reveal_strlit("Int8");
    reveal_strlit("Int16");
    reveal_strlit("Int32");
    reveal_strlit("UInt8");
    reveal_strlit("UInt16");
    reveal_strlit("UInt32");
    reveal_strlit("Float");
    reveal_strlit("Boolean");
    reveal_strlit("Duration");
    reveal_strlit("DataSize");
    reveal_strlit("Null");
    reveal_strlit("Nothing");
    reveal_strlit("Unit");
    reveal_strlit("Any");
    reveal_strlit("unknown");
    reveal_strlit("Dynamic");
    reveal_strlit("List<");
    reveal_strlit("Listing<");
    reveal_strlit("Set<");
    reveal_strlit("Map<");
    reveal_strlit("Mapping<");
    assert(!starts_with(t, "List<"@)) by { if starts_with(t, "List<"@) { assert(t.take(5)[0] == t[0]); } }
    assert(!starts_with(t, "Listing<"@)) by { if starts_with(t, "Listing<"@) { assert(t.take(8)[0] == t[0]); } }
    assert(!starts_with(t, "Set<"@)) by { if starts_with(t, "Set<"@) { assert(t.take(4)[0] == t[0]); } }
    assert(t.take(4) =~= "Map<"@);
    assert(starts_with(t, "Map<"@));
    // the parameters are `K` and `V`
    lemma_prefix_generics(t, "Map<"@);
    assert(rfind_char(t, '>') == Some(n - 1));
    let inner = a + (", "@ + b);
    assert(t.subrange(4, n - 1) =~= inner);
    assert(generic_inner(t) == Some(inner));
    lemma_split_passes_over(a, ", "@ + b, 0, seq![]);
    assert(Seq::<char>::empty() + a =~= a);
    let rest = ", "@ + b;
    assert(rest[0] == ',');
    assert(rest.drop_first() =~= seq![' '] + b);
    assert(comma_free(seq![' '] + b)) by {
        assert forall|i: int| 0 <= i < (seq![' '] + b).len() implies #[trigger] (seq![' '] + b)[i] != ',' by {
            if i > 0 {
                assert((seq![' '] + b)[i] == b[i - 1]);
            }
        }
    }
    lemma_split_last_piece(seq![' '] + b, 0, seq![]);
    assert(Seq::<char>::empty() + (seq![' '] + b) =~= seq![' '] + b);
    assert(trim_start(seq![' '] + b) == trim_start((seq![' '] + b).drop_first()));
    assert((seq![' '] + b).drop_first() =~= b);
    assert(trim(seq![' '] + b) == b);
    assert(generic_split(rest, 0, a) == seq![trim(a)] + generic_split(rest.drop_first(), 0, seq![]));
    let params = spec_generic_params(t);
    assert(params =~= seq![a, b]);
}

} // verus!
