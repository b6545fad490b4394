//! Reading a Pkl source text into its schema: comments are stripped, class
//! blocks are located by brace depth, and the remaining lines are read as
//! type aliases or module-level properties.
use vstd::prelude::*;
use crate::text::{
    lemma_lines_total_len, lemma_total_len_push, lemma_total_len_take, lemma_trim_len, lines,
    split_lines, str_to_chars, total_len, chars_to_string, contains, eq_lit, find, find_any, find_any_of, find_char, find_lit,
    find_seq, first_word, is_whitespace, lemma_find_any, lemma_find_char, lemma_find_seq,
    lemma_first_word, lemma_trim_start_is_suffix, seq_contains_char, slice_of, split_char,
    split_on, starts_with, starts_with_lit, trim, trim_char, trim_char_chars, trim_chars,
    trim_start, trim_start_chars, ascii_whitespace_as_std, char_is_whitespace, trim_end, unpadded,
    lemma_trim_unpadded,
};
use super::schema::{
    aliases_view, classes_view, properties_view, Class, ModuleModel, strings_view, ClassModel, Property, PropertyModel, TypeAlias, TypeAliasModel,
};

verus! {

// ───────────────────────── Comments ─────────────────────────

/// The source with `// ...` comments (up to, not including, the line end)
/// and `/* ... */` comments removed. An unterminated block comment removes
/// the rest of the text.
pub open spec fn spec_strip_comments(s: Seq<char>) -> Seq<char>
    decreases s.len(),
{
    if s.len() >= 2 && s[0] == '/' && s[1] == '/' {
        match find_char(s, '\n') {
            Some(k) => {
                proof {
                    lemma_find_char(s, '\n');
                }
                spec_strip_comments(s.skip(k))
            },
            None => seq![],
        }
    } else if s.len() >= 2 && s[0] == '/' && s[1] == '*' {
        match find_seq(s.skip(2), "*/"@) {
            Some(k) => {
                proof {
                    lemma_find_seq(s.skip(2), "*/"@);
                }
                spec_strip_comments(s.skip(k + 2 + "*/"@.len()))
            },
            None => seq![],
        }
    } else if s.len() == 0 {
        seq![]
    } else {
        seq![s[0]] + spec_strip_comments(s.drop_first())
    }
}

/// Removes `//` line comments and `/* */` block comments.
pub fn strip_comments(s: &[char]) -> (r: Vec<char>)
    ensures
        r@ == spec_strip_comments(s@),
{
    let mut out: Vec<char> = Vec::new();
    let n = s.len();
    let mut i: usize = 0;
    assert(s@.skip(0) =~= s@);
    while i < n
        invariant
            n == s@.len(),
            i <= n,
            spec_strip_comments(s@) == out@ + spec_strip_comments(s@.skip(i as int)),
        decreases n - i,
    {
        let ghost t = s@.skip(i as int);
        if i + 1 < n && s[i] == '/' && s[i + 1] == '/' {
            let rest = slice_of(s, i, n);
            assert(rest@ =~= t);
            match find(&rest, '\n') {
                Some(k) => {
                    proof {
                        lemma_find_char(t, '\n');
                        assert(t.skip(k as int) =~= s@.skip(i + k));
                    }
                    i = i + k;
                },
                None => {
                    proof {
                        assert(s@.skip(n as int) =~= Seq::<char>::empty());
                        assert(out@ + seq![] =~= out@);
                    }
                    i = n;
                },
            }
        } else if i + 1 < n && s[i] == '/' && s[i + 1] == '*' {
            let rest = slice_of(s, i + 2, n);
            assert(rest@ =~= t.skip(2));
            match find_lit(&rest, "*/") {
                Some(k) => {
                    proof {
                        lemma_find_seq(t.skip(2), "*/"@);
                    }
                    let ghost m = k + 2 + "*/"@.len();
                    assert(t.skip(m) =~= s@.skip(i + m));
                    i = i + k + 2 + "*/".unicode_len();
                },
                None => {
                    proof {
                        assert(s@.skip(n as int) =~= Seq::<char>::empty());
                        assert(out@ + seq![] =~= out@);
                    }
                    i = n;
                },
            }
        } else {
            out.push(s[i]);
            proof {
                assert(t.drop_first() =~= s@.skip(i + 1));
                assert(t[0] == s@[i as int]);
            }
            i = i + 1;
        }
    }
    proof {
        assert(s@.skip(i as int) =~= Seq::<char>::empty());
        assert(out@ + Seq::<char>::empty() =~= out@);
    }
    out
}

// ───────────────────────── Type aliases ─────────────────────────

/// The variant names of a union: each `|`-separated piece, trimmed, with its
/// quotes removed; empty pieces are dropped.
pub open spec fn union_variants(parts: Seq<Seq<char>>) -> Seq<Seq<char>>
    decreases parts.len(),
{
    if parts.len() == 0 {
        seq![]
    } else {
        let v = trim_char(trim(parts.last()), '"');
        if v.len() == 0 {
            union_variants(parts.drop_last())
        } else {
            union_variants(parts.drop_last()).push(v)
        }
    }
}

/// `typealias Name = Type`.
pub open spec fn spec_parse_typealias(line: Seq<char>) -> Option<TypeAliasModel> {
    let t = trim(line);
    if !starts_with(t, "typealias "@) {
        None
    } else {
        let rest = t.skip("typealias "@.len() as int);
        match find_char(rest, '=') {
            None => None,
            Some(e) => {
                let type_str = trim(rest.skip(e + 1));
                Some(
                    TypeAliasModel {
                        name: trim(rest.take(e)),
                        type_str: type_str,
                        is_union: seq_contains_char(type_str, '|'),
                        variants: union_variants(split_char(type_str, '|')),
                    },
                )
            },
        }
    }
}

/// Reads a `typealias Name = Type` line.
pub fn try_parse_typealias(line: &[char]) -> (r: Option<TypeAlias>)
    ensures
        r matches Some(a) ==> spec_parse_typealias(line@) == Some(a@),
        r is None ==> spec_parse_typealias(line@) is None,
{
    let t = trim_chars(line);
    if !starts_with_lit(&t, "typealias ") {
        return None;
    }
    let rest = slice_of(&t, "typealias ".unicode_len(), t.len());
    assert(rest@ =~= t@.skip("typealias "@.len() as int));
    let e = match find(&rest, '=') {
        Some(e) => e,
        None => {
            return None;
        },
    };
    proof {
        lemma_find_char(rest@, '=');
    }
    let name_part = slice_of(&rest, 0, e);
    let name = trim_chars(&name_part);
    let type_part = slice_of(&rest, e + 1, rest.len());
    let type_str = trim_chars(&type_part);
    let parts = split_on(&type_str, '|');
    let mut variants: Vec<String> = Vec::new();
    let mut k: usize = 0;
    while k < parts.len()
        invariant
            k <= parts@.len(),
            parts@.len() == split_char(type_str@, '|').len(),
            forall|j: int| 0 <= j < parts@.len() ==> (#[trigger] parts@[j])@ == split_char(
                type_str@,
                '|',
            )[j],
            strings_view(variants@) == union_variants(split_char(type_str@, '|').take(k as int)),
        decreases parts@.len() - k,
    {
        let piece = trim_chars(&parts[k]);
        let v = trim_char_chars(&piece, '"');
        let ghost before = variants@;
        proof {
            assert(split_char(type_str@, '|').take(k + 1).drop_last() =~= split_char(
                type_str@,
                '|',
            ).take(k as int));
        }
        if v.len() > 0 {
            variants.push(chars_to_string(&v));
            assert(strings_view(variants@) =~= strings_view(before).push(v@));
        }
        k = k + 1;
    }
    assert(split_char(type_str@, '|').take(parts@.len() as int) =~= split_char(type_str@, '|'));
    let is_union = contains(&type_str, '|');
    Some(
        TypeAlias {
            name: chars_to_string(&name),
            type_str: chars_to_string(&type_str),
            is_union,
            variants,
        },
    )
}

// ───────────────────────── Properties ─────────────────────────

/// The words that may precede a property name.
pub open spec fn is_modifier(w: Seq<char>) -> bool {
    w == "hidden"@ || w == "local"@ || w == "fixed"@ || w == "const"@ || w == "abstract"@ || w
        == "open"@
}

/// The line opens the `output { ... }` block: the word `output`, optional
/// white space, then `{`.
pub open spec fn opens_output_block(t: Seq<char>) -> bool {
    starts_with(t, "output"@) && {
        let rest = trim_start(t.skip(6));
        rest.len() > 0 && rest[0] == '{'
    }
}

/// Lines that cannot declare a property.
pub open spec fn is_non_property_line(t: Seq<char>) -> bool {
    starts_with(t, "class "@) || starts_with(t, "typealias "@) || starts_with(t, "import "@)
        || starts_with(t, "amends "@) || starts_with(t, "extends "@) || starts_with(t, "module "@)
        || opens_output_block(t) || (t.len() > 0 && t[0] == '{') || (t.len() > 0 && t[0]
        == '}') || starts_with(t, "function "@) || starts_with(t, "local "@)
}

/// The leading modifier words of `s` and what follows them; `None` when
/// nothing but whitespace remains.
pub open spec fn strip_modifiers(s: Seq<char>) -> Option<(Seq<Seq<char>>, Seq<char>)>
    decreases s.len(),
{
    let st = trim_start(s);
    if st.len() == 0 {
        None
    } else {
        let w = first_word(st);
        if is_modifier(w) {
            proof {
                lemma_trim_start_is_suffix(s);
                lemma_first_word(st);
            }
            match strip_modifiers(st.skip(w.len() as int)) {
                Some((m, r)) => Some((seq![w] + m, r)),
                None => None,
            }
        } else {
            Some((seq![], s))
        }
    }
}

/// `[modifiers] name: Type [= default]`, with `Type?` marking a nullable type.
pub open spec fn spec_parse_property(line: Seq<char>) -> Option<PropertyModel> {
    let t = trim(line);
    if is_non_property_line(t) {
        None
    } else {
        match strip_modifiers(t) {
            None => None,
            Some((mods, rest0)) => {
                let rest = trim(rest0);
                match find_char(rest, ':') {
                    None => None,
                    Some(c) => {
                        let after = trim(rest.skip(c + 1));
                        let has_default = find_seq(after, "= "@) is Some;
                        let type_part = match find_seq(after, "= "@) {
                            Some(e) => trim(after.take(e)),
                            None => after,
                        };
                        let optional = type_part.len() > 0 && type_part.last() == '?';
                        Some(
                            PropertyModel {
                                name: trim(rest.take(c)),
                                type_str: if optional {
                                    trim(type_part.drop_last())
                                } else {
                                    type_part
                                },
                                optional: optional,
                                has_default: has_default,
                                modifiers: mods,
                            },
                        )
                    },
                }
            },
        }
    }
}

fn is_modifier_word(w: &[char]) -> (r: bool)
    ensures
        r == is_modifier(w@),
{
    eq_lit(w, "hidden") || eq_lit(w, "local") || eq_lit(w, "fixed") || eq_lit(w, "const")
        || eq_lit(w, "abstract") || eq_lit(w, "open")
}

fn output_block(t: &[char]) -> (r: bool)
    ensures
        r == opens_output_block(t@),
{
    proof {
        reveal_strlit("output");
    }
    if !starts_with_lit(t, "output") {
        return false;
    }
    let rest = slice_of(t, 6, t.len());
    let k = trim_start_chars(&rest);
    k < rest.len() && rest[k] == '{'
}

fn is_non_property(t: &[char]) -> (r: bool)
    ensures
        r == is_non_property_line(t@),
{
    starts_with_lit(t, "class ") || starts_with_lit(t, "typealias ") || starts_with_lit(
        t,
        "import ",
    ) || starts_with_lit(t, "amends ") || starts_with_lit(t, "extends ") || starts_with_lit(
        t,
        "module ",
    ) || output_block(t) || (t.len() > 0 && t[0] == '{') || (t.len() > 0 && t[0]
        == '}') || starts_with_lit(t, "function ") || starts_with_lit(t, "local ")
}

/// The first whitespace-free word of `s` (`split_whitespace().next()`).
fn leading_word(s: &[char]) -> (r: usize)
    ensures
        r <= s@.len(),
        s@.take(r as int) == first_word(s@),
{
    let mut i: usize = 0;
    assert(s@.skip(0) =~= s@);
    assert(Seq::<char>::empty() + first_word(s@) =~= first_word(s@));
    assert(s@.take(0) =~= Seq::<char>::empty());
    while i < s.len() && !is_whitespace(s[i])
        invariant
            i <= s@.len(),
            first_word(s@) == s@.take(i as int) + first_word(s@.skip(i as int)),
        decreases s@.len() - i,
    {
        proof {
            let u = s@.skip(i as int);
            assert(u.drop_first() =~= s@.skip(i + 1));
            assert(s@.take(i + 1) =~= s@.take(i as int) + seq![u[0]]);
        }
        i = i + 1;
    }
    proof {
        assert(s@.skip(0) =~= s@);
        assert(first_word(s@.skip(i as int)) =~= Seq::<char>::empty());
        assert(s@.take(i as int) + Seq::<char>::empty() =~= s@.take(i as int));
    }
    i
}

/// Separates the leading modifiers from the rest of a property line.
fn take_modifiers(s: &[char]) -> (r: Option<(Vec<String>, Vec<char>)>)
    ensures
        r matches Some((m, rest)) ==> strip_modifiers(s@) == Some((strings_view(m@), rest@)),
        r is None ==> strip_modifiers(s@) is None,
{
    let mut mods: Vec<String> = Vec::new();
    let mut rest: Vec<char> = slice_of(s, 0, s.len());
    assert(rest@ =~= s@);
    loop
        invariant
            strip_modifiers(s@) == match strip_modifiers(rest@) {
                Some((m, r)) => Some((strings_view(mods@) + m, r)),
                None => None,
            },
        decreases rest@.len(),
    {
        let a = trim_start_chars(&rest);
        let st = slice_of(&rest, a, rest.len());
        assert(st@ =~= trim_start(rest@));
        if st.len() == 0 {
            return None;
        }
        let wl = leading_word(&st);
        let w = slice_of(&st, 0, wl);
        if is_modifier_word(&w) {
            proof {
                lemma_trim_start_is_suffix(rest@);
                lemma_first_word(st@);
            }
            let next = slice_of(&st, wl, st.len());
            let ghost old_mods = mods@;
            mods.push(chars_to_string(&w));
            proof {
                assert(strings_view(mods@) =~= strings_view(old_mods).push(w@));
                assert(next@ =~= st@.skip(wl as int));
                assert forall|m: Seq<Seq<char>>|
                    #![auto]
                    strings_view(old_mods) + (seq![w@] + m) =~= strings_view(mods@) + m by {}
            }
            rest = next;
        } else {
            proof {
                assert(strings_view(mods@) + seq![] =~= strings_view(mods@));
            }
            return Some((mods, rest));
        }
    }
}

/// Reads a property declaration line.
pub fn try_parse_property(line: &[char]) -> (r: Option<Property>)
    ensures
        r matches Some(p) ==> spec_parse_property(line@) == Some(p@),
        r is None ==> spec_parse_property(line@) is None,
{
    let t = trim_chars(line);
    if is_non_property(&t) {
        return None;
    }
    let (mods, rest0) = match take_modifiers(&t) {
        Some(x) => x,
        None => {
            return None;
        },
    };
    let rest = trim_chars(&rest0);
    let colon = match find(&rest, ':') {
        Some(k) => k,
        None => {
            return None;
        },
    };
    proof {
        lemma_find_char(rest@, ':');
    }
    let rest_len = rest.len();
    assert(colon < rest_len);
    let name_part = slice_of(&rest, 0, colon);
    let name = trim_chars(&name_part);
    let after_part = slice_of(&rest, colon + 1, rest_len);
    let after = trim_chars(&after_part);
    let eq = find_lit(&after, "= ");
    let has_default = eq.is_some();
    let type_part = match eq {
        Some(e) => {
            proof {
                lemma_find_seq(after@, "= "@);
            }
            let tp = slice_of(&after, 0, e);
            trim_chars(&tp)
        },
        None => after,
    };
    let optional = type_part.len() > 0 && type_part[type_part.len() - 1] == '?';
    let type_str = if optional {
        let base = slice_of(&type_part, 0, type_part.len() - 1);
        assert(base@ =~= type_part@.drop_last());
        trim_chars(&base)
    } else {
        type_part
    };
    Some(
        Property {
            name: chars_to_string(&name),
            type_str: chars_to_string(&type_str),
            optional,
            has_default,
            modifiers: mods,
        },
    )
}

// ───────────────────────── Class headers ─────────────────────────

/// `[abstract] [open] class Name [extends Parent] [{]`: the name, the parent,
/// whether the class is abstract, whether it is open.
pub open spec fn spec_class_header(line: Seq<char>) -> Option<
    (Seq<char>, Option<Seq<char>>, bool, bool),
> {
    let t = trim(line);
    if !(starts_with(t, "class "@) || starts_with(t, "abstract class "@) || starts_with(
        t,
        "open class "@,
    )) {
        None
    } else {
        let is_abstract = starts_with(t, "abstract "@);
        let r1 = if is_abstract {
            t.skip("abstract "@.len() as int)
        } else {
            t
        };
        let is_open = starts_with(r1, "open "@);
        let r2 = if is_open {
            r1.skip("open "@.len() as int)
        } else {
            r1
        };
        if !starts_with(r2, "class "@) {
            None
        } else {
            let r3 = r2.skip("class "@.len() as int);
            let name_end = match find_any(r3, seq!['{', ' ', '\t']) {
                Some(k) => k,
                None => r3.len() as int,
            };
            let name = r3.take(name_end);
            if name.len() == 0 {
                None
            } else {
                let after = trim(r3.skip(name_end));
                let superclass = if starts_with(after, "extends "@) {
                    let e = after.skip("extends "@.len() as int);
                    let k = match find_any(e, seq!['{', ' ']) {
                        Some(k) => k,
                        None => e.len() as int,
                    };
                    Some(trim(e.take(k)))
                } else {
                    None
                };
                Some((name, superclass, is_abstract, is_open))
            }
        }
    }
}

/// Reads a class declaration header.
pub fn try_extract_class_header(line: &[char]) -> (r: Option<
    (Vec<char>, Option<Vec<char>>, bool, bool),
>)
    ensures
        r matches Some((n, s, a, o)) ==> spec_class_header(line@) == Some(
            (
                n@,
                match s {
                    Some(x) => Some(x@),
                    None => None,
                },
                a,
                o,
            ),
        ),
        r is None ==> spec_class_header(line@) is None,
{
    let t = trim_chars(line);
    if !(starts_with_lit(&t, "class ") || starts_with_lit(&t, "abstract class ")
        || starts_with_lit(&t, "open class ")) {
        return None;
    }
    let is_abstract = starts_with_lit(&t, "abstract ");
    let r1 = if is_abstract {
        let x = slice_of(&t, "abstract ".unicode_len(), t.len());
        assert(x@ =~= t@.skip("abstract "@.len() as int));
        x
    } else {
        t
    };
    let is_open = starts_with_lit(&r1, "open ");
    let r2 = if is_open {
        let x = slice_of(&r1, "open ".unicode_len(), r1.len());
        assert(x@ =~= r1@.skip("open "@.len() as int));
        x
    } else {
        r1
    };
    if !starts_with_lit(&r2, "class ") {
        return None;
    }
    let r3 = slice_of(&r2, "class ".unicode_len(), r2.len());
    assert(r3@ =~= r2@.skip("class "@.len() as int));
    let stops = vec!['{', ' ', '\t'];
    assert(stops@ =~= seq!['{', ' ', '\t']);
    let name_end = match find_any_of(&r3, &stops) {
        Some(k) => {
            proof {
                lemma_find_any(r3@, stops@);
            }
            k
        },
        None => r3.len(),
    };
    let name = slice_of(&r3, 0, name_end);
    if name.len() == 0 {
        return None;
    }
    let after_part = slice_of(&r3, name_end, r3.len());
    assert(after_part@ =~= r3@.skip(name_end as int));
    let after = trim_chars(&after_part);
    let superclass = if starts_with_lit(&after, "extends ") {
        let e = slice_of(&after, "extends ".unicode_len(), after.len());
        assert(e@ =~= after@.skip("extends "@.len() as int));
        let stops2 = vec!['{', ' '];
        assert(stops2@ =~= seq!['{', ' ']);
        let k = match find_any_of(&e, &stops2) {
            Some(k) => {
                proof {
                    lemma_find_any(e@, stops2@);
                }
                k
            },
            None => e.len(),
        };
        let head = slice_of(&e, 0, k);
        Some(trim_chars(&head))
    } else {
        None
    };
    Some((name, superclass, is_abstract, is_open))
}

} // verus!

verus! {

// ───────────────────────── Class blocks ─────────────────────────

/// The characters held by each line.
pub open spec fn lines_view(v: Seq<Vec<char>>) -> Seq<Seq<char>> {
    Seq::new(v.len(), |k: int| v[k]@)
}

/// The first line at or after `i` whose trimmed text contains `{`.
pub open spec fn open_line(ls: Seq<Seq<char>>, i: int) -> Option<int>
    decreases ls.len() - i,
{
    if i < 0 || i >= ls.len() {
        None
    } else if seq_contains_char(trim(ls[i]), '{') {
        Some(i)
    } else {
        open_line(ls, i + 1)
    }
}

/// Scans one line for braces, starting at brace depth `depth`: `None` when a
/// `}` brings the depth down to zero within the line, else the depth at its end.
pub open spec fn close_in(s: Seq<char>, depth: int) -> Option<int>
    decreases s.len(),
{
    if s.len() == 0 {
        Some(depth)
    } else if s[0] == '{' {
        close_in(s.drop_first(), depth + 1)
    } else if s[0] == '}' {
        if depth - 1 == 0 {
            None
        } else {
            close_in(s.drop_first(), depth - 1)
        }
    } else {
        close_in(s.drop_first(), depth)
    }
}

/// The line, at or after `j`, on which the brace depth (counted over trimmed
/// lines from `depth`) comes back to zero.
pub open spec fn close_line(ls: Seq<Seq<char>>, j: int, depth: int) -> Option<int>
    decreases ls.len() - j,
{
    if j < 0 || j >= ls.len() {
        None
    } else {
        match close_in(trim(ls[j]), depth) {
            None => Some(j),
            Some(d) => close_line(ls, j + 1, d),
        }
    }
}

pub proof fn lemma_open_line(ls: Seq<Seq<char>>, i: int)
    ensures
        open_line(ls, i) matches Some(k) ==> 0 <= i <= k < ls.len(),
    decreases ls.len() - i,
{
    if 0 <= i < ls.len() && !seq_contains_char(trim(ls[i]), '{') {
        lemma_open_line(ls, i + 1);
    }
}

pub proof fn lemma_close_line(ls: Seq<Seq<char>>, j: int, depth: int)
    ensures
        close_line(ls, j, depth) matches Some(k) ==> 0 <= j <= k < ls.len(),
    decreases ls.len() - j,
{
    if 0 <= j < ls.len() {
        match close_in(trim(ls[j]), depth) {
            None => {},
            Some(d) => lemma_close_line(ls, j + 1, d),
        }
    }
}

/// The properties declared on the given class-body lines.
pub open spec fn class_body_properties(ls: Seq<Seq<char>>) -> Seq<PropertyModel>
    decreases ls.len(),
{
    if ls.len() == 0 {
        seq![]
    } else {
        let p = class_body_properties(ls.drop_last());
        match spec_parse_property(trim(ls.last())) {
            Some(x) => p.push(x),
            None => p,
        }
    }
}

/// The classes found from line `i` on, each with the range of lines from its
/// opening-brace line to just past its closing-brace line. A class whose body
/// closes on the line that opens it (`class A {}`) has no properties. Always
/// `Some` (see `lemma_scan_classes`).
pub open spec fn scan_classes(ls: Seq<Seq<char>>, i: int) -> Option<Seq<(ClassModel, int, int)>>
    decreases ls.len() - i,
{
    if i < 0 || i >= ls.len() {
        Some(seq![])
    } else {
        match spec_class_header(trim(ls[i])) {
            None => scan_classes(ls, i + 1),
            Some((name, superclass, is_abstract, is_open)) => match open_line(ls, i) {
                None => scan_classes(ls, i + 1),
                Some(bs) => match close_line(ls, bs, 0) {
                    None => scan_classes(ls, i + 1),
                    Some(cl) => {
                        {
                            proof {
                                lemma_open_line(ls, i);
                                lemma_close_line(ls, bs, 0);
                            }
                            match scan_classes(ls, cl + 1) {
                                None => None,
                                Some(rest) => Some(
                                    seq![
                                        (
                                            ClassModel {
                                                name: name,
                                                superclass: superclass,
                                                properties: if cl == bs {
                                                    seq![]
                                                } else {
                                                    class_body_properties(ls.subrange(bs + 1, cl))
                                                },
                                                is_open: is_open,
                                                is_abstract: is_abstract,
                                            },
                                            bs,
                                            cl + 1,
                                        ),
                                    ] + rest,
                                ),
                            }
                        }
                    },
                },
            },
        }
    }
}

/// Every source has its class blocks read: the scan never fails.
pub proof fn lemma_scan_classes(ls: Seq<Seq<char>>, i: int)
    ensures
        scan_classes(ls, i) is Some,
    decreases ls.len() - i,
{
    if 0 <= i < ls.len() {
        match spec_class_header(trim(ls[i])) {
            None => lemma_scan_classes(ls, i + 1),
            Some(_) => match open_line(ls, i) {
                None => lemma_scan_classes(ls, i + 1),
                Some(bs) => match close_line(ls, bs, 0) {
                    None => lemma_scan_classes(ls, i + 1),
                    Some(cl) => {
                        lemma_open_line(ls, i);
                        lemma_close_line(ls, bs, 0);
                        lemma_scan_classes(ls, cl + 1);
                    },
                },
            },
        }
    }
}

fn find_open(lines: &Vec<Vec<char>>, i: usize) -> (r: Option<usize>)
    requires
        i < lines@.len(),
    ensures
        r matches Some(k) ==> open_line(lines_view(lines@), i as int) == Some(k as int),
        r is None ==> open_line(lines_view(lines@), i as int) is None,
{
    let ghost lv = lines_view(lines@);
    let mut j = i;
    while j < lines.len()
        invariant
            i <= j <= lines@.len(),
            lv == lines_view(lines@),
            open_line(lv, i as int) == open_line(lv, j as int),
        decreases lines@.len() - j,
    {
        let t = trim_chars(&lines[j]);
        assert(lv[j as int] == lines@[j as int]@);
        if contains(&t, '{') {
            return Some(j);
        }
        j = j + 1;
    }
    None
}

fn find_close(lines: &Vec<Vec<char>>, bs: usize) -> (r: Option<usize>)
    requires
        bs < lines@.len(),
        total_len(lines_view(lines@)) <= usize::MAX,
    ensures
        r matches Some(k) ==> close_line(lines_view(lines@), bs as int, 0) == Some(k as int),
        r is None ==> close_line(lines_view(lines@), bs as int, 0) is None,
{
    let ghost lv = lines_view(lines@);
    let mut depth: i128 = 0;
    let mut j = bs;
    proof {
        assert(lv.take(bs as int).len() == bs);
    }
    while j < lines.len()
        invariant
            bs <= j <= lines@.len(),
            lv == lines_view(lines@),
            total_len(lv) <= usize::MAX,
            close_line(lv, bs as int, 0) == close_line(lv, j as int, depth as int),
            -(total_len(lv.take(j as int)) as int) <= depth <= total_len(lv.take(j as int)),
        decreases lines@.len() - j,
    {
        let t = trim_chars(&lines[j]);
        let ghost d0 = depth as int;
        proof {
            assert(lv[j as int] == lines@[j as int]@);
            lemma_trim_len(lv[j as int]);
            assert(lv.take(j + 1) =~= lv.take(j as int).push(lv[j as int]));
            lemma_total_len_push(lv.take(j as int), lv[j as int]);
            lemma_total_len_take(lv, j + 1);
            assert(t@.skip(0) =~= t@);
        }
        let ghost base = total_len(lv.take(j as int)) as int;
        assert(t@ == trim(lv[j as int]));
        let mut k: usize = 0;
        while k < t.len()
            invariant
                k <= t@.len(),
                j < lv.len(),
                lv == lines_view(lines@),
                t@ == trim(lv[j as int]),
                close_line(lv, bs as int, 0) == close_line(lv, j as int, d0),
                t@.len() <= lv[j as int].len(),
                base + lv[j as int].len() <= usize::MAX,
                close_in(t@, d0) == close_in(t@.skip(k as int), depth as int),
                -(base + k) <= depth <= base + k,
            decreases t@.len() - k,
        {
            let ghost u = t@.skip(k as int);
            assert(u[0] == t@[k as int]);
            assert(u.drop_first() =~= t@.skip(k + 1));
            if t[k] == '{' {
                depth = depth + 1;
            } else if t[k] == '}' {
                if depth - 1 == 0 {
                    return Some(j);
                }
                depth = depth - 1;
            }
            k = k + 1;
        }
        assert(t@.skip(k as int) =~= Seq::<char>::empty());
        assert(total_len(lv.take(j + 1)) == base + lv[j as int].len());
        j = j + 1;
    }
    None
}

/// The properties of the class body on lines `a..b`.
fn body_properties(lines: &Vec<Vec<char>>, a: usize, b: usize) -> (r: Vec<Property>)
    requires
        a <= b <= lines@.len(),
    ensures
        properties_view(r@) == class_body_properties(lines_view(lines@).subrange(a as int, b as int)),
{
    let ghost lv = lines_view(lines@);
    let mut props: Vec<Property> = Vec::new();
    let mut k = a;
    while k < b
        invariant
            a <= k <= b <= lines@.len(),
            lv == lines_view(lines@),
            properties_view(props@) == class_body_properties(lv.subrange(a as int, k as int)),
        decreases b - k,
    {
        let t = trim_chars(&lines[k]);
        let ghost before = props@;
        proof {
            assert(lv[k as int] == lines@[k as int]@);
            assert(lv.subrange(a as int, k + 1).drop_last() =~= lv.subrange(a as int, k as int));
            assert(lv.subrange(a as int, k + 1).last() == lv[k as int]);
        }
        match try_parse_property(&t) {
            Some(p) => {
                props.push(p);
                assert(properties_view(props@) =~= properties_view(before).push(p@));
            },
            None => {},
        }
        k = k + 1;
    }
    props
}

/// The ranges of lines that the class blocks cover.
pub open spec fn block_ranges(blocks: Seq<(ClassModel, int, int)>) -> Seq<(int, int)> {
    Seq::new(blocks.len(), |k: int| (blocks[k].1, blocks[k].2))
}

pub open spec fn block_classes(blocks: Seq<(ClassModel, int, int)>) -> Seq<ClassModel> {
    Seq::new(blocks.len(), |k: int| blocks[k].0)
}

pub open spec fn ranges_view(v: Seq<(usize, usize)>) -> Seq<(int, int)> {
    Seq::new(v.len(), |k: int| (v[k].0 as int, v[k].1 as int))
}

/// Finds the class blocks of `source` (after stripping its comments): the
/// classes and, for each, the line range from its opening-brace line to
/// just past its closing-brace line.
pub fn parse_class_blocks_with_ranges(source: &[char]) -> (r: (Vec<Class>, Vec<(usize, usize)>))
    ensures
        ({
            let blocks = scan_classes(lines(spec_strip_comments(source@)), 0).unwrap();
            &&& classes_view(r.0@) == block_classes(blocks)
            &&& ranges_view(r.1@) == block_ranges(blocks)
        }),
{
    let cleaned = strip_comments(source);
    let cleaned_len = cleaned.len();
    let rows = split_lines(&cleaned);
    let ghost lv = lines_view(rows@);
    proof {
        assert(lv =~= lines(cleaned@));
        lemma_lines_total_len(cleaned@);
    }
    proof {
        lemma_scan_classes(lv, 0);
    }
    let ghost all = scan_classes(lv, 0).unwrap();
    let mut classes: Vec<Class> = Vec::new();
    let mut ranges: Vec<(usize, usize)> = Vec::new();
    let ghost mut acc: Seq<(ClassModel, int, int)> = seq![];
    let mut i: usize = 0;
    while i < rows.len()
        invariant
            i <= rows@.len(),
            lv == lines_view(rows@),
            total_len(lv) <= usize::MAX,
            scan_classes(lv, i as int) is Some,
            all == acc + scan_classes(lv, i as int).unwrap(),
            classes_view(classes@) == block_classes(acc),
            ranges_view(ranges@) == block_ranges(acc),
        decreases rows@.len() - i,
    {
        let t = trim_chars(&rows[i]);
        assert(lv[i as int] == rows@[i as int]@);
        match try_extract_class_header(&t) {
            None => {
                i = i + 1;
            },
            Some((name, superclass, is_abstract, is_open)) => {
                match find_open(&rows, i) {
                    None => {
                        i = i + 1;
                    },
                    Some(bs) => {
                        proof {
                            lemma_open_line(lv, i as int);
                        }
                        match find_close(&rows, bs) {
                            None => {
                                i = i + 1;
                            },
                            Some(cl) => {
                                proof {
                                    lemma_close_line(lv, bs as int, 0);
                                }
                                let properties = if cl == bs {
                                    let v: Vec<Property> = Vec::new();
                                    assert(properties_view(v@) =~= Seq::<PropertyModel>::empty());
                                    v
                                } else {
                                    body_properties(&rows, bs + 1, cl)
                                };
                                let class = Class {
                                    name: chars_to_string(&name),
                                    superclass: match superclass {
                                        Some(s) => Some(chars_to_string(&s)),
                                        None => None,
                                    },
                                    properties,
                                    is_open,
                                    is_abstract,
                                };
                                let ghost item = (class@, bs as int, cl + 1);
                                let ghost old_classes = classes@;
                                let ghost old_ranges = ranges@;
                                classes.push(class);
                                ranges.push((bs, cl + 1));
                                proof {
                                    assert(seq![item] + scan_classes(lv, cl + 1).unwrap()
                                        == scan_classes(lv, i as int).unwrap());
                                    assert(classes_view(classes@) =~= classes_view(old_classes).push(item.0));
                                    assert(ranges_view(ranges@) =~= ranges_view(old_ranges).push((item.1, item.2)));
                                    assert(block_classes(acc.push(item)) =~= block_classes(acc).push(item.0));
                                    assert(block_ranges(acc.push(item)) =~= block_ranges(acc).push((item.1, item.2)));
                                    acc = acc.push(item);
                                    assert(all =~= acc + scan_classes(lv, cl + 1).unwrap());
                                }
                                i = cl + 1;
                            },
                        }
                    },
                }
            },
        }
    }
    assert(acc + seq![] =~= acc);
    (classes, ranges)
}

// ───────────────────────── Modules ─────────────────────────

/// Whether line `idx` lies inside one of the ranges.
pub open spec fn in_ranges(rs: Seq<(int, int)>, idx: int) -> bool {
    exists|k: int| 0 <= k < rs.len() && #[trigger] rs[k].0 <= idx && idx < rs[k].1
}

/// The type aliases and properties declared on the first `n` lines, skipping
/// blank lines and lines inside the given ranges.
pub open spec fn module_items(ls: Seq<Seq<char>>, rs: Seq<(int, int)>, n: int) -> (
    Seq<TypeAliasModel>,
    Seq<PropertyModel>,
)
    decreases n,
{
    if n <= 0 {
        (seq![], seq![])
    } else {
        let (a, p) = module_items(ls, rs, n - 1);
        let t = trim(ls[n - 1]);
        if t.len() == 0 || in_ranges(rs, n - 1) {
            (a, p)
        } else {
            match spec_parse_typealias(t) {
                Some(x) => (a.push(x), p),
                None => match spec_parse_property(t) {
                    Some(y) => (a, p.push(y)),
                    None => (a, p),
                },
            }
        }
    }
}

/// The schema of a Pkl source text; always `Some` (see `lemma_scan_classes`).
pub open spec fn spec_parse_module(src: Seq<char>) -> Option<ModuleModel> {
    let cleaned = spec_strip_comments(src);
    match scan_classes(lines(spec_strip_comments(cleaned)), 0) {
        None => None,
        Some(blocks) => {
            let ls = lines(cleaned);
            let items = module_items(ls, block_ranges(blocks), ls.len() as int);
            Some(
                ModuleModel {
                    classes: block_classes(blocks),
                    type_aliases: items.0,
                    properties: items.1,
                },
            )
        },
    }
}

fn in_ranges_exec(ranges: &Vec<(usize, usize)>, idx: usize) -> (r: bool)
    ensures
        r == in_ranges(ranges_view(ranges@), idx as int),
{
    let ghost rv = ranges_view(ranges@);
    let mut k: usize = 0;
    while k < ranges.len()
        invariant
            k <= ranges@.len(),
            rv == ranges_view(ranges@),
            forall|m: int| 0 <= m < k ==> !(rv[m].0 <= idx && idx < rv[m].1),
        decreases ranges@.len() - k,
    {
        let (a, b) = ranges[k];
        if idx >= a && idx < b {
            assert(rv[k as int].0 <= idx && idx < rv[k as int].1);
            return true;
        }
        k = k + 1;
    }
    false
}

/// Parses a Pkl source string into its module structure: class definitions,
/// type aliases, and module-level properties.
pub fn parse_module(source: &str) -> (r: Result<super::schema::Module, String>)
    ensures
        r matches Ok(m) && m@ == spec_parse_module(source@).unwrap(),
{
    let src = str_to_chars(source);
    let cleaned = strip_comments(&src);
    let (classes, ranges) = parse_class_blocks_with_ranges(&cleaned);
    proof {
        lemma_scan_classes(lines(spec_strip_comments(cleaned@)), 0);
    }
    let ghost blocks = scan_classes(lines(spec_strip_comments(cleaned@)), 0).unwrap();
    let rows = split_lines(&cleaned);
    let ghost lv = lines_view(rows@);
    assert(lv =~= lines(cleaned@));
    let ghost rs = block_ranges(blocks);
    let mut type_aliases: Vec<TypeAlias> = Vec::new();
    let mut properties: Vec<Property> = Vec::new();
    let mut idx: usize = 0;
    while idx < rows.len()
        invariant
            idx <= rows@.len(),
            lv == lines_view(rows@),
            ranges_view(ranges@) == rs,
            aliases_view(type_aliases@) == module_items(lv, rs, idx as int).0,
            properties_view(properties@) == module_items(lv, rs, idx as int).1,
        decreases rows@.len() - idx,
    {
        let t = trim_chars(&rows[idx]);
        assert(lv[idx as int] == rows@[idx as int]@);
        let ghost old_a = type_aliases@;
        let ghost old_p = properties@;
        if t.len() == 0 || in_ranges_exec(&ranges, idx) {
        } else {
            match try_parse_typealias(&t) {
                Some(a) => {
                    type_aliases.push(a);
                    assert(aliases_view(type_aliases@) =~= aliases_view(old_a).push(a@));
                },
                None => {
                    match try_parse_property(&t) {
                        Some(p) => {
                            properties.push(p);
                            assert(properties_view(properties@) =~= properties_view(old_p).push(
                                p@,
                            ));
                        },
                        None => {},
                    }
                },
            }
        }
        idx = idx + 1;
    }
    Ok(super::schema::Module { classes, type_aliases, properties })
}


/// A word of characters that are neither white space nor `:`.
pub open spec fn plain_word(w: Seq<char>) -> bool {
    w.len() > 0 && forall|i: int| 0 <= i < w.len() ==> !char_is_whitespace(#[trigger] w[i]) && w[i] != ':'
}

proof fn lemma_first_word_until_space(w: Seq<char>, rest: Seq<char>)
    requires
        forall|i: int| 0 <= i < w.len() ==> !char_is_whitespace(#[trigger] w[i]),
        rest.len() > 0,
        char_is_whitespace(rest[0]),
    ensures
        first_word(w + rest) == w,
    decreases w.len(),
{
    if w.len() == 0 {
        assert((w + rest)[0] == rest[0]);
    } else {
        assert((w + rest)[0] == w[0]);
        assert((w + rest).drop_first() =~= w.drop_first() + rest);
        assert forall|i: int| 0 <= i < w.drop_first().len() implies !char_is_whitespace(#[trigger] w.drop_first()[i]) by {
            assert(w.drop_first()[i] == w[i + 1]);
        }
        lemma_first_word_until_space(w.drop_first(), rest);
        assert(seq![w[0]] + w.drop_first() =~= w);
    }
}

proof fn lemma_starts_with_first_two(t: Seq<char>, p: Seq<char>)
    requires
        p.len() >= 2,
        starts_with(t, p),
    ensures
        t[0] == p[0] && t[1] == p[1],
{
    assert(t.take(p.len() as int)[0] == t[0]);
    assert(t.take(p.len() as int)[1] == t[1]);
}

/// A line opening with `hi`, `fi`, `co`, `ab` or `op` declares no class,
/// alias, import, module clause, output block, function or local.
proof fn lemma_not_declaration_line(t: Seq<char>)
    requires
        t.len() >= 2,
        (t[0] == 'h' && t[1] == 'i') || (t[0] == 'f' && t[1] == 'i') || (t[0] == 'c' && t[1] == 'o')
            || (t[0] == 'a' && t[1] == 'b') || (t[0] == 'o' && t[1] == 'p'),
    ensures
        !is_non_property_line(t),
{
    reveal_strlit("class ");
    reveal_strlit("typealias ");
    reveal_strlit("import ");
    reveal_strlit("amends ");
    reveal_strlit("extends ");
    reveal_strlit("module ");
    reveal_strlit("output");
    reveal_strlit("function ");
    reveal_strlit("local ");
    if starts_with(t, "class "@) { lemma_starts_with_first_two(t, "class "@); }
    if starts_with(t, "typealias "@) { lemma_starts_with_first_two(t, "typealias "@); }
    if starts_with(t, "import "@) { lemma_starts_with_first_two(t, "import "@); }
    if starts_with(t, "amends "@) { lemma_starts_with_first_two(t, "amends "@); }
    if starts_with(t, "extends "@) { lemma_starts_with_first_two(t, "extends "@); }
    if starts_with(t, "module "@) { lemma_starts_with_first_two(t, "module "@); }
    if starts_with(t, "output"@) { lemma_starts_with_first_two(t, "output"@); }
    if starts_with(t, "function "@) { lemma_starts_with_first_two(t, "function "@); }
    if starts_with(t, "local "@) { lemma_starts_with_first_two(t, "local "@); }
}

/// After the modifier: `name: Type` with nothing more to strip.
#[verifier::spinoff_prover]
proof fn lemma_rest_has_no_modifier(name: Seq<char>, ty: Seq<char>)
    requires
        ascii_whitespace_as_std(),
        plain_word(name),
        unpadded(ty),
    ensures
        strip_modifiers(" "@ + name + ": "@ + ty) == Some((Seq::<Seq<char>>::empty(), " "@ + name + ": "@ + ty)),
        trim(" "@ + name + ": "@ + ty) == name + ": "@ + ty,
{
    reveal_strlit(" ");
    reveal_strlit(": ");
    reveal_strlit("hidden");
    reveal_strlit("fixed");
    reveal_strlit("const");
    reveal_strlit("abstract");
    reveal_strlit("open");
    reveal_strlit("local");
    assert(char_is_whitespace(' '));
    assert(!char_is_whitespace(':'));
    let after_m = " "@ + name + ": "@ + ty;
    let body = name + ": "@ + ty;
    assert(after_m[0] == ' ');
    assert(after_m.drop_first() =~= body);
    assert(trim_start(after_m) == trim_start(body));
    assert(body[0] == name[0]);
    assert(trim_start(body) == body);
    let w = name.push(':');
    assert(body =~= w + (" "@ + ty));
    assert forall|i: int| 0 <= i < w.len() implies !char_is_whitespace(#[trigger] w[i]) by {
        if i < name.len() {
            assert(w[i] == name[i]);
        }
    }
    assert((" "@ + ty)[0] == ' ');
    lemma_first_word_until_space(w, " "@ + ty);
    assert(!is_modifier(w)) by {
        assert(w.last() == ':');
    }
    assert(body.last() == ty.last());
    assert(trim_end(body) == body);
}

/// `name: Type` reads as the property `name` of type `Type`.
proof fn lemma_name_colon_type(name: Seq<char>, ty: Seq<char>)
    requires
        ascii_whitespace_as_std(),
        plain_word(name),
        unpadded(ty),
        forall|i: int| 0 <= i < ty.len() ==> #[trigger] ty[i] != '=',
    ensures
        find_char(name + ": "@ + ty, ':') == Some(name.len() as int),
        trim((name + ": "@ + ty).take(name.len() as int)) == name,
        trim((name + ": "@ + ty).skip(name.len() as int + 1)) == ty,
        find_seq(ty, "= "@) is None,
{
    reveal_strlit(": ");
    reveal_strlit("= ");
    assert(char_is_whitespace(' '));
    let body = name + ": "@ + ty;
    lemma_find_char(body, ':');
    assert(body[name.len() as int] == ':');
    if let Some(c) = find_char(body, ':') {
        if c < name.len() {
            assert(body[c] == name[c]);
        }
    } else {
        assert(false);
    }
    assert(body.take(name.len() as int) =~= name);
    lemma_trim_unpadded(name);
    let after_colon = body.skip(name.len() as int + 1);
    assert(after_colon =~= seq![' '] + ty);
    assert(after_colon.drop_first() =~= ty);
    assert(trim_start(after_colon) == trim_start(ty));
    lemma_trim_unpadded(ty);
    lemma_find_seq(ty, "= "@);
    if let Some(e) = find_seq(ty, "= "@) {
        assert(ty.skip(e).take(2)[0] == ty[e]);
    }
}

/// A property line `m name: Type`, where `m` is one of the modifiers
/// `hidden`, `fixed`, `const`, `abstract` and `open`, reads as the property
/// `name` of type `Type` carrying the modifier `m`: the modifier is taken
/// off the name and kept in the modifier list. (A line that begins with
/// `local ` is not read as a property at all.)
#[verifier::spinoff_prover]
pub proof fn lemma_modifier_leaves_the_name(m: Seq<char>, name: Seq<char>, ty: Seq<char>)
    requires
        ascii_whitespace_as_std(),
        m == "hidden"@ || m == "fixed"@ || m == "const"@ || m == "abstract"@ || m == "open"@,
        plain_word(name),
        unpadded(ty),
        forall|i: int| 0 <= i < ty.len() ==> #[trigger] ty[i] != '=',
        ty.last() != '?',
    ensures
        spec_parse_property(m + " "@ + name + ": "@ + ty) == Some(
            PropertyModel { name: name, type_str: ty, optional: false, has_default: false, modifiers: seq![m] },
        ),
{
    reveal_strlit("hidden");
    reveal_strlit("fixed");
    reveal_strlit("const");
    reveal_strlit("abstract");
    reveal_strlit("open");
    reveal_strlit(" ");
    reveal_strlit(": ");
    let after_m = " "@ + name + ": "@ + ty;
    let body = name + ": "@ + ty;
    let t = m + after_m;
    assert(t =~= m + " "@ + name + ": "@ + ty);
    assert forall|i: int| 0 <= i < m.len() implies !char_is_whitespace(#[trigger] m[i]) by {
        assert((m[i] as u32) < 128);
    }
    assert(t[0] == m[0] && t[1] == m[1]);
    assert(t.last() == ty.last());
    lemma_trim_unpadded(t);
    lemma_not_declaration_line(t);
    assert(after_m[0] == ' ');
    assert(char_is_whitespace(' '));
    lemma_first_word_until_space(m, after_m);
    assert(trim_start(t) == t);
    assert(t.skip(m.len() as int) =~= after_m);
    lemma_rest_has_no_modifier(name, ty);
    assert(strip_modifiers(t) == Some((seq![m], after_m))) by {
        assert(seq![m] + Seq::<Seq<char>>::empty() =~= seq![m]);
    }
    lemma_name_colon_type(name, ty);
}


#[verifier::spinoff_prover]
proof fn lemma_two_modifiers_stripped(m0: Seq<char>, m1: Seq<char>, name: Seq<char>, ty: Seq<char>)
    requires
        ascii_whitespace_as_std(),
        m0 == "hidden"@ || m0 == "fixed"@ || m0 == "const"@ || m0 == "abstract"@ || m0 == "open"@,
        m1 == "hidden"@ || m1 == "local"@ || m1 == "fixed"@ || m1 == "const"@ || m1 == "abstract"@ || m1 == "open"@,
        plain_word(name),
        unpadded(ty),
    ensures
        trim(m0 + (" "@ + (m1 + (" "@ + name + ": "@ + ty)))) == m0 + (" "@ + (m1 + (" "@ + name + ": "@ + ty))),
        !is_non_property_line(m0 + (" "@ + (m1 + (" "@ + name + ": "@ + ty)))),
        strip_modifiers(m0 + (" "@ + (m1 + (" "@ + name + ": "@ + ty)))) == Some((seq![m0, m1], " "@ + name + ": "@ + ty)),
{
    reveal_strlit("hidden");
    reveal_strlit("local");
    reveal_strlit("fixed");
    reveal_strlit("const");
    reveal_strlit("abstract");
    reveal_strlit("open");
    reveal_strlit(" ");
    reveal_strlit(": ");
    assert(char_is_whitespace(' '));
    let after = " "@ + name + ": "@ + ty;
    let after_m1 = m1 + after;
    let after_m0 = " "@ + after_m1;
    let t = m0 + after_m0;
    assert forall|i: int| 0 <= i < m0.len() implies !char_is_whitespace(#[trigger] m0[i]) by {
        assert((m0[i] as u32) < 128);
    }
    assert forall|i: int| 0 <= i < m1.len() implies !char_is_whitespace(#[trigger] m1[i]) by {
        assert((m1[i] as u32) < 128);
    }
    assert(t[0] == m0[0] && t[1] == m0[1]);
    assert(t.last() == ty.last());
    lemma_trim_unpadded(t);
    lemma_not_declaration_line(t);
    assert(after_m0[0] == ' ');
    lemma_first_word_until_space(m0, after_m0);
    assert(trim_start(t) == t);
    assert(t.skip(m0.len() as int) =~= after_m0);
    assert(after_m0.drop_first() =~= after_m1);
    assert(after_m1[0] == m1[0]);
    assert(trim_start(after_m1) == after_m1);
    assert(trim_start(after_m0) == after_m1);
    assert(after[0] == ' ');
    lemma_first_word_until_space(m1, after);
    assert(after_m1.skip(m1.len() as int) =~= after);
    lemma_rest_has_no_modifier(name, ty);
    assert(strip_modifiers(after_m0) == Some((seq![m1], after))) by {
        assert(seq![m1] + Seq::<Seq<char>>::empty() =~= seq![m1]);
    }
    assert(seq![m0] + seq![m1] =~= seq![m0, m1]);
}

/// Two modifiers: a line `m0 m1 name: Type`, where `m0` is `hidden`,
/// `fixed`, `const`, `abstract` or `open` and `m1` is any of the six
/// modifiers (`local` among them), reads as the property `name` carrying
/// the modifiers `m0` and `m1` in that order.
pub proof fn lemma_two_modifiers_leave_the_name(m0: Seq<char>, m1: Seq<char>, name: Seq<char>, ty: Seq<char>)
    requires
        ascii_whitespace_as_std(),
        m0 == "hidden"@ || m0 == "fixed"@ || m0 == "const"@ || m0 == "abstract"@ || m0 == "open"@,
        m1 == "hidden"@ || m1 == "local"@ || m1 == "fixed"@ || m1 == "const"@ || m1 == "abstract"@ || m1 == "open"@,
        plain_word(name),
        unpadded(ty),
        forall|i: int| 0 <= i < ty.len() ==> #[trigger] ty[i] != '=',
        ty.last() != '?',
    ensures
        spec_parse_property(m0 + " "@ + m1 + " "@ + name + ": "@ + ty) == Some(
            PropertyModel { name: name, type_str: ty, optional: false, has_default: false, modifiers: seq![m0, m1] },
        ),
{
    let t = m0 + (" "@ + (m1 + (" "@ + name + ": "@ + ty)));
    assert(m0 + " "@ + m1 + " "@ + name + ": "@ + ty =~= t);
    lemma_two_modifiers_stripped(m0, m1, name, ty);
    lemma_rest_has_no_modifier(name, ty);
    lemma_name_colon_type(name, ty);
}

} // verus!
