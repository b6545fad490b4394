//! Character-sequence utilities: the string operations that the schema
//! parser and the code generator are built from, each stated over `Seq<char>`.
use vstd::prelude::*;

verus! {

// ───────────────────────── Unicode character classes ─────────────────────────

/// Whether `c` has the Unicode `White_Space` property (`char::is_whitespace`).
pub uninterp spec fn char_is_whitespace(c: char) -> bool;

/// Whether `c` is alphabetic or numeric in the Unicode sense (`char::is_alphanumeric`).
pub uninterp spec fn char_is_alphanumeric(c: char) -> bool;

/// Whether `c` has the Unicode `Uppercase` property (`char::is_uppercase`).
pub uninterp spec fn char_is_uppercase(c: char) -> bool;

/// The ASCII characters that `char::is_whitespace` accepts: tab, line feed,
/// vertical tab, form feed, carriage return and space.
pub open spec fn ascii_whitespace(c: char) -> bool {
    c == ' ' || ('\t' <= c && c <= '\r')
}

/// `char::is_whitespace` on ASCII characters: true exactly for the ASCII
/// white space above, as its documentation (the Unicode `White_Space`
/// property) gives and as `is_whitespace` states for every call.
pub open spec fn ascii_whitespace_as_std() -> bool {
    forall|c: char| (c as u32) < 128 ==> (#[trigger] char_is_whitespace(c) <==> ascii_whitespace(c))
}

/// Text with no white space at either end.
pub open spec fn unpadded(s: Seq<char>) -> bool {
    s.len() > 0 && !char_is_whitespace(s[0]) && !char_is_whitespace(s.last())
}

/// Trimming leaves unpadded text as it is.
pub proof fn lemma_trim_unpadded(s: Seq<char>)
    requires
        unpadded(s),
    ensures
        trim(s) == s,
{
}

pub open spec fn ascii_letter(c: char) -> bool {
    ('a' <= c && c <= 'z') || ('A' <= c && c <= 'Z')
}

pub open spec fn ascii_digit(c: char) -> bool {
    '0' <= c && c <= '9'
}

/// Calls `char::is_whitespace`. The contract names the result and states what
/// the std documentation gives for ASCII input (the `White_Space` property);
/// for other characters it is left to the name.
#[verifier::external_body]
pub(crate) fn is_whitespace(c: char) -> (r: bool)
    ensures
        r == char_is_whitespace(c),
        (c as u32) < 128 ==> (r <==> ascii_whitespace(c)),
{
    c.is_whitespace()
}

/// Calls `char::is_alphanumeric`. For ASCII input the result is true exactly
/// for letters and digits; for other characters it is left to the name.
#[verifier::external_body]
pub(crate) fn is_alphanumeric(c: char) -> (r: bool)
    ensures
        r == char_is_alphanumeric(c),
        (c as u32) < 128 ==> (r <==> (ascii_letter(c) || ascii_digit(c))),
{
    c.is_alphanumeric()
}

/// Calls `char::is_uppercase`. For ASCII input the result is true exactly for
/// `'A'..='Z'`; for other characters it is left to the name.
#[verifier::external_body]
pub(crate) fn is_uppercase(c: char) -> (r: bool)
    ensures
        r == char_is_uppercase(c),
        (c as u32) < 128 ==> (r <==> ('A' <= c && c <= 'Z')),
{
    c.is_uppercase()
}

// ───────────────────────── ASCII case mapping ─────────────────────────

pub open spec fn spec_ascii_lower(c: char) -> char {
    if 'A' <= c && c <= 'Z' {
        ((c as u32) + 32) as char
    } else {
        c
    }
}

pub open spec fn spec_ascii_upper(c: char) -> char {
    if 'a' <= c && c <= 'z' {
        ((c as u32) - 32) as char
    } else {
        c
    }
}

/// `char::to_ascii_lowercase`.
pub fn ascii_lower(c: char) -> (r: char)
    ensures
        r == spec_ascii_lower(c),
{
    if 'A' <= c && c <= 'Z' {
        let r = ((c as u8) + 32) as char;
        assert(r as u32 == (c as u32) + 32);
        r
    } else {
        c
    }
}

/// `char::to_ascii_uppercase`.
pub fn ascii_upper(c: char) -> (r: char)
    ensures
        r == spec_ascii_upper(c),
{
    if 'a' <= c && c <= 'z' {
        let r = ((c as u8) - 32) as char;
        assert(r as u32 == (c as u32) - 32);
        r
    } else {
        c
    }
}

// ───────────────────────── Trimming ─────────────────────────

pub open spec fn trim_start(s: Seq<char>) -> Seq<char>
    decreases s.len(),
{
    if s.len() > 0 && char_is_whitespace(s[0]) {
        trim_start(s.drop_first())
    } else {
        s
    }
}

pub open spec fn trim_end(s: Seq<char>) -> Seq<char>
    decreases s.len(),
{
    if s.len() > 0 && char_is_whitespace(s.last()) {
        trim_end(s.drop_last())
    } else {
        s
    }
}

/// `str::trim`: whitespace removed from both ends.
pub open spec fn trim(s: Seq<char>) -> Seq<char> {
    trim_end(trim_start(s))
}

/// `s` with every leading and trailing `c` removed (`str::trim_matches(c)`).
pub open spec fn trim_char(s: Seq<char>, c: char) -> Seq<char> {
    trim_char_end(trim_char_start(s, c), c)
}

pub open spec fn trim_char_start(s: Seq<char>, c: char) -> Seq<char>
    decreases s.len(),
{
    if s.len() > 0 && s[0] == c {
        trim_char_start(s.drop_first(), c)
    } else {
        s
    }
}

pub open spec fn trim_char_end(s: Seq<char>, c: char) -> Seq<char>
    decreases s.len(),
{
    if s.len() > 0 && s.last() == c {
        trim_char_end(s.drop_last(), c)
    } else {
        s
    }
}

/// Leading whitespace is a prefix: `trim_start(s)` is a suffix of `s`.
pub proof fn lemma_trim_start_is_suffix(s: Seq<char>)
    ensures
        trim_start(s).len() <= s.len(),
        trim_start(s) == s.skip(s.len() - trim_start(s).len()),
        trim_start(s).len() > 0 ==> !char_is_whitespace(trim_start(s)[0]),
    decreases s.len(),
{
    if s.len() > 0 && char_is_whitespace(s[0]) {
        lemma_trim_start_is_suffix(s.drop_first());
        assert(s.drop_first().skip(s.drop_first().len() - trim_start(s).len())
            =~= s.skip(s.len() - trim_start(s).len()));
    } else {
        assert(s.skip(0) =~= s);
    }
}

pub proof fn lemma_trim_end_is_prefix(s: Seq<char>)
    ensures
        trim_end(s).len() <= s.len(),
        trim_end(s) == s.take(trim_end(s).len() as int),
        trim_end(s).len() > 0 ==> !char_is_whitespace(trim_end(s).last()),
    decreases s.len(),
{
    if s.len() > 0 && char_is_whitespace(s.last()) {
        lemma_trim_end_is_prefix(s.drop_last());
        assert(s.drop_last().take(trim_end(s).len() as int) =~= s.take(trim_end(s).len() as int));
    } else {
        assert(s.take(s.len() as int) =~= s);
    }
}

pub proof fn lemma_trim_char_start_is_suffix(s: Seq<char>, c: char)
    ensures
        trim_char_start(s, c).len() <= s.len(),
        trim_char_start(s, c) == s.skip(s.len() - trim_char_start(s, c).len()),
    decreases s.len(),
{
    if s.len() > 0 && s[0] == c {
        lemma_trim_char_start_is_suffix(s.drop_first(), c);
        assert(s.drop_first().skip(s.drop_first().len() - trim_char_start(s, c).len())
            =~= s.skip(s.len() - trim_char_start(s, c).len()));
    } else {
        assert(s.skip(0) =~= s);
    }
}

pub proof fn lemma_trim_char_end_is_prefix(s: Seq<char>, c: char)
    ensures
        trim_char_end(s, c).len() <= s.len(),
        trim_char_end(s, c) == s.take(trim_char_end(s, c).len() as int),
    decreases s.len(),
{
    if s.len() > 0 && s.last() == c {
        lemma_trim_char_end_is_prefix(s.drop_last(), c);
        assert(s.drop_last().take(trim_char_end(s, c).len() as int) =~= s.take(
            trim_char_end(s, c).len() as int,
        ));
    } else {
        assert(s.take(s.len() as int) =~= s);
    }
}

pub proof fn lemma_trim_len(s: Seq<char>)
    ensures
        trim(s).len() <= s.len(),
{
    lemma_trim_start_is_suffix(s);
    lemma_trim_end_is_prefix(trim_start(s));
}

// ───────────────────────── Searching ─────────────────────────

/// Index of the first `c` in `s` (`str::find(c)`), counted in characters.
pub open spec fn find_char(s: Seq<char>, c: char) -> Option<int>
    decreases s.len(),
{
    if s.len() == 0 {
        None
    } else if s[0] == c {
        Some(0)
    } else {
        match find_char(s.drop_first(), c) {
            Some(i) => Some(i + 1),
            None => None,
        }
    }
}

pub proof fn lemma_find_char(s: Seq<char>, c: char)
    ensures
        find_char(s, c) matches Some(i) ==> 0 <= i < s.len() && s[i] == c && forall|j: int|
            0 <= j < i ==> s[j] != c,
        find_char(s, c) is None ==> forall|j: int| 0 <= j < s.len() ==> s[j] != c,
    decreases s.len(),
{
    if s.len() > 0 && s[0] != c {
        lemma_find_char(s.drop_first(), c);
        assert forall|j: int| 1 <= j < s.len() implies s[j] == s.drop_first()[j - 1] by {}
    }
}

/// The first-occurrence characterisation determines `find_char`.
pub proof fn lemma_find_char_at(s: Seq<char>, c: char, i: int)
    requires
        0 <= i <= s.len(),
        forall|j: int| 0 <= j < i ==> s[j] != c,
    ensures
        i < s.len() && s[i] == c ==> find_char(s, c) == Some(i),
        i == s.len() ==> find_char(s, c) is None,
    decreases s.len(),
{
    lemma_find_char(s, c);
    if s.len() > 0 && s[0] != c && i > 0 {
        assert forall|j: int| 0 <= j < i - 1 implies s.drop_first()[j] != c by {
            assert(s.drop_first()[j] == s[j + 1]);
        }
        lemma_find_char_at(s.drop_first(), c, i - 1);
    }
}

/// Index of the last `c` in `s` (`str::rfind(c)`).
pub open spec fn rfind_char(s: Seq<char>, c: char) -> Option<int>
    decreases s.len(),
{
    if s.len() == 0 {
        None
    } else if s.last() == c {
        Some(s.len() - 1)
    } else {
        rfind_char(s.drop_last(), c)
    }
}

pub proof fn lemma_rfind_char(s: Seq<char>, c: char)
    ensures
        rfind_char(s, c) matches Some(i) ==> 0 <= i < s.len() && s[i] == c && forall|j: int|
            i < j < s.len() ==> s[j] != c,
        rfind_char(s, c) is None ==> forall|j: int| 0 <= j < s.len() ==> s[j] != c,
    decreases s.len(),
{
    if s.len() > 0 && s.last() != c {
        lemma_rfind_char(s.drop_last(), c);
        assert forall|j: int| 0 <= j < s.len() - 1 implies s[j] == s.drop_last()[j] by {}
    }
}


/// Index of the first character of `s` that is one of `cs` (`str::find([..])`).
pub open spec fn find_any(s: Seq<char>, cs: Seq<char>) -> Option<int>
    decreases s.len(),
{
    if s.len() == 0 {
        None
    } else if cs.contains(s[0]) {
        Some(0)
    } else {
        match find_any(s.drop_first(), cs) {
            Some(i) => Some(i + 1),
            None => None,
        }
    }
}

pub proof fn lemma_find_any(s: Seq<char>, cs: Seq<char>)
    ensures
        find_any(s, cs) matches Some(i) ==> 0 <= i < s.len() && cs.contains(s[i]),
    decreases s.len(),
{
    if s.len() > 0 && !cs.contains(s[0]) {
        lemma_find_any(s.drop_first(), cs);
    }
}

pub open spec fn seq_contains_char(s: Seq<char>, c: char) -> bool {
    exists|i: int| 0 <= i < s.len() && s[i] == c
}

/// Whether `s` begins with `p`.
pub open spec fn starts_with(s: Seq<char>, p: Seq<char>) -> bool {
    p.len() <= s.len() && s.take(p.len() as int) == p
}

/// Whether `s` ends with `p`.
pub open spec fn ends_with(s: Seq<char>, p: Seq<char>) -> bool {
    p.len() <= s.len() && s.skip(s.len() - p.len()) == p
}

/// Index of the first occurrence of the pattern `p` in `s` (`str::find(p)`).
pub open spec fn find_seq(s: Seq<char>, p: Seq<char>) -> Option<int>
    decreases s.len(),
{
    if starts_with(s, p) {
        Some(0)
    } else if s.len() == 0 {
        None
    } else {
        match find_seq(s.drop_first(), p) {
            Some(i) => Some(i + 1),
            None => None,
        }
    }
}

pub proof fn lemma_find_seq(s: Seq<char>, p: Seq<char>)
    ensures
        find_seq(s, p) matches Some(i) ==> 0 <= i && i + p.len() <= s.len() && starts_with(
            s.skip(i),
            p,
        ),
    decreases s.len(),
{
    if starts_with(s, p) {
        assert(s.skip(0) =~= s);
    } else if s.len() > 0 {
        lemma_find_seq(s.drop_first(), p);
        if let Some(i) = find_seq(s.drop_first(), p) {
            assert(s.drop_first().skip(i) =~= s.skip(i + 1));
        }
    }
}

// ───────────────────────── Splitting ─────────────────────────

/// `s` with one trailing carriage return removed, if it has one.
pub open spec fn strip_cr(l: Seq<char>) -> Seq<char> {
    if l.len() > 0 && l.last() == '\r' {
        l.drop_last()
    } else {
        l
    }
}

/// `str::lines`: the pieces between `\n` characters, each without a
/// trailing `\r`, with no empty piece after a final `\n`.
pub open spec fn lines(s: Seq<char>) -> Seq<Seq<char>>
    decreases s.len(),
{
    if s.len() == 0 {
        seq![]
    } else {
        match find_char(s, '\n') {
            None => seq![s],
            Some(i) => {
                proof {
                    lemma_find_char(s, '\n');
                }
                seq![strip_cr(s.take(i))] + lines(s.skip(i + 1))
            },
        }
    }
}

/// Total number of characters in a sequence of pieces.
pub open spec fn total_len(ls: Seq<Seq<char>>) -> nat
    decreases ls.len(),
{
    if ls.len() == 0 {
        0
    } else {
        total_len(ls.drop_last()) + ls.last().len()
    }
}

pub proof fn lemma_total_len_take(ls: Seq<Seq<char>>, k: int)
    requires
        0 <= k <= ls.len(),
    ensures
        total_len(ls.take(k)) <= total_len(ls),
    decreases ls.len(),
{
    if k < ls.len() {
        assert(ls.drop_last().take(k) =~= ls.take(k));
        lemma_total_len_take(ls.drop_last(), k);
    } else {
        assert(ls.take(k) =~= ls);
    }
}

pub proof fn lemma_total_len_push(ls: Seq<Seq<char>>, l: Seq<char>)
    ensures
        total_len(ls.push(l)) == total_len(ls) + l.len(),
{
    assert(ls.push(l).drop_last() =~= ls);
}

pub proof fn lemma_total_len_cons(l: Seq<char>, ls: Seq<Seq<char>>)
    ensures
        total_len(seq![l] + ls) == l.len() + total_len(ls),
    decreases ls.len(),
{
    if ls.len() == 0 {
        assert(seq![l] + ls =~= seq![l]);
        assert(seq![l].drop_last() =~= Seq::<Seq<char>>::empty());
        assert(seq![l].last() == l);
        assert(total_len(Seq::<Seq<char>>::empty()) == 0);
        assert(ls =~= Seq::<Seq<char>>::empty());
    } else {
        lemma_total_len_cons(l, ls.drop_last());
        assert((seq![l] + ls).drop_last() =~= seq![l] + ls.drop_last());
        assert((seq![l] + ls).last() == ls.last());
    }
}

/// The lines of `s` hold no more characters than `s` itself.
pub proof fn lemma_lines_total_len(s: Seq<char>)
    ensures
        total_len(lines(s)) <= s.len(),
    decreases s.len(),
{
    if s.len() > 0 {
        lemma_find_char(s, '\n');
        match find_char(s, '\n') {
            None => {
                assert(seq![s].drop_last() =~= Seq::<Seq<char>>::empty());
                assert(seq![s].last() == s);
                assert(total_len(Seq::<Seq<char>>::empty()) == 0);
            },
            Some(i) => {
                lemma_lines_total_len(s.skip(i + 1));
                assert(strip_cr(s.take(i)).len() <= i);
                lemma_total_len_cons(strip_cr(s.take(i)), lines(s.skip(i + 1)));
            },
        }
    }
}

/// `str::split(c)`: the pieces between occurrences of `c` (always at least one).
pub open spec fn split_char(s: Seq<char>, c: char) -> Seq<Seq<char>>
    decreases s.len(),
{
    match find_char(s, c) {
        None => seq![s],
        Some(i) => {
            proof {
                lemma_find_char(s, c);
            }
            seq![s.take(i)] + split_char(s.skip(i + 1), c)
        },
    }
}

/// The first maximal run of non-whitespace characters of `s`, which is
/// expected to start with a non-whitespace character.
pub open spec fn first_word(s: Seq<char>) -> Seq<char>
    decreases s.len(),
{
    if s.len() == 0 || char_is_whitespace(s[0]) {
        seq![]
    } else {
        seq![s[0]] + first_word(s.drop_first())
    }
}

pub proof fn lemma_first_word(s: Seq<char>)
    ensures
        first_word(s).len() <= s.len(),
        first_word(s) == s.take(first_word(s).len() as int),
        s.len() > 0 && !char_is_whitespace(s[0]) ==> first_word(s).len() > 0,
    decreases s.len(),
{
    if s.len() > 0 && !char_is_whitespace(s[0]) {
        lemma_first_word(s.drop_first());
        assert(seq![s[0]] + s.drop_first().take(first_word(s.drop_first()).len() as int)
            =~= s.take(first_word(s).len() as int));
    } else {
        assert(s.take(0) =~= Seq::<char>::empty());
    }
}

// ───────────────────────── Joining ─────────────────────────

/// The pieces of `parts` with `sep` between consecutive pieces (`join`).
pub open spec fn join(parts: Seq<Seq<char>>, sep: Seq<char>) -> Seq<char>
    decreases parts.len(),
{
    if parts.len() == 0 {
        seq![]
    } else if parts.len() == 1 {
        parts[0]
    } else {
        join(parts.drop_last(), sep) + sep + parts.last()
    }
}

// ───────────────────────── Executable helpers ─────────────────────────

/// The character sequences held by a vector of strings.
pub open spec fn strings_view(v: Seq<String>) -> Seq<Seq<char>> {
    Seq::new(v.len(), |i: int| v[i]@)
}

/// The characters of an optional string.
pub open spec fn opt_str(o: Option<String>) -> Option<Seq<char>> {
    match o {
        Some(s) => Some(s@),
        None => None,
    }
}

/// The characters of `s`.
pub fn str_to_chars(s: &str) -> (r: Vec<char>)
    ensures
        r@ == s@,
{
    let mut v: Vec<char> = Vec::new();
    for c in it: s.chars()
        invariant
            v@ == it.seq().take(it.index() as int),
            it.seq() == s@,
    {
        v.push(c);
    }
    v
}

/// Calls `String::push`: appends one character.
#[verifier::external_body]
fn push_char(s: &mut String, c: char)
    ensures
        final(s)@ == old(s)@.push(c),
{
    s.push(c);
}

/// Builds a `String` from characters.
pub fn chars_to_string(v: &[char]) -> (r: String)
    ensures
        r@ == v@,
{
    let mut s = String::new();
    let mut i: usize = 0;
    while i < v.len()
        invariant
            i <= v@.len(),
            s@ == v@.take(i as int),
        decreases v@.len() - i,
    {
        push_char(&mut s, v[i]);
        assert(v@.take(i + 1) =~= v@.take(i as int).push(v@[i as int]));
        i = i + 1;
    }
    assert(v@.take(i as int) =~= v@);
    s
}

/// Copies `s[a..b]`.
pub fn slice_of(s: &[char], a: usize, b: usize) -> (r: Vec<char>)
    requires
        a <= b <= s@.len(),
    ensures
        r@ == s@.subrange(a as int, b as int),
{
    let mut r: Vec<char> = Vec::new();
    let mut i = a;
    while i < b
        invariant
            a <= i <= b <= s@.len(),
            r@ == s@.subrange(a as int, i as int),
        decreases b - i,
    {
        r.push(s[i]);
        i = i + 1;
        assert(r@ =~= s@.subrange(a as int, i as int));
    }
    r
}

/// Appends the characters of `t` to `v`.
pub fn push_all(v: &mut Vec<char>, t: &[char])
    ensures
        final(v)@ == old(v)@ + t@,
{
    let mut i: usize = 0;
    while i < t.len()
        invariant
            i <= t@.len(),
            v@ == old(v)@ + t@.take(i as int),
        decreases t@.len() - i,
    {
        v.push(t[i]);
        i = i + 1;
        assert(v@ =~= old(v)@ + t@.take(i as int));
    }
    assert(t@.take(t@.len() as int) =~= t@);
}

/// Appends the characters of the literal `t` to `v`.
pub fn push_str(v: &mut Vec<char>, t: &str)
    ensures
        final(v)@ == old(v)@ + t@,
{
    let n = t.unicode_len();
    let mut i: usize = 0;
    while i < n
        invariant
            i <= n,
            n == t@.len(),
            v@ == old(v)@ + t@.take(i as int),
        decreases n - i,
    {
        v.push(t.get_char(i));
        i = i + 1;
        assert(v@ =~= old(v)@ + t@.take(i as int));
    }
    assert(t@.take(n as int) =~= t@);
}

/// The characters of the literal `t`.
pub fn lit(t: &str) -> (r: Vec<char>)
    ensures
        r@ == t@,
{
    let mut v: Vec<char> = Vec::new();
    push_str(&mut v, t);
    v
}

/// Whether `s` begins with the characters of `p`.
pub fn starts_with_lit(s: &[char], p: &str) -> (r: bool)
    ensures
        r == starts_with(s@, p@),
{
    let n = p.unicode_len();
    if n > s.len() {
        return false;
    }
    let mut i: usize = 0;
    while i < n
        invariant
            i <= n <= s@.len(),
            n == p@.len(),
            s@.take(i as int) == p@.take(i as int),
        decreases n - i,
    {
        if s[i] != p.get_char(i) {
            assert(s@.take(n as int)[i as int] != p@[i as int]);
            return false;
        }
        i = i + 1;
        assert(s@.take(i as int) =~= p@.take(i as int));
    }
    assert(p@.take(n as int) =~= p@);
    true
}

/// Whether `s` ends with the characters of `p`.
pub fn ends_with_char(s: &[char], c: char) -> (r: bool)
    ensures
        r == (s@.len() > 0 && s@.last() == c),
{
    s.len() > 0 && s[s.len() - 1] == c
}

/// Whether `s` is exactly the characters of `p`.
pub fn eq_lit(s: &[char], p: &str) -> (r: bool)
    ensures
        r == (s@ == p@),
{
    let n = p.unicode_len();
    if n != s.len() {
        return false;
    }
    let b = starts_with_lit(s, p);
    proof {
        assert(s@.take(n as int) =~= s@);
    }
    b
}

/// Whether `s` and `t` hold the same characters.
pub fn eq_chars(s: &[char], t: &[char]) -> (r: bool)
    ensures
        r == (s@ == t@),
{
    if s.len() != t.len() {
        return false;
    }
    let mut i: usize = 0;
    while i < s.len()
        invariant
            i <= s@.len() == t@.len(),
            s@.take(i as int) == t@.take(i as int),
        decreases s@.len() - i,
    {
        if s[i] != t[i] {
            return false;
        }
        i = i + 1;
        assert(s@.take(i as int) =~= t@.take(i as int));
    }
    assert(s@.take(s@.len() as int) =~= s@);
    assert(t@.take(t@.len() as int) =~= t@);
    true
}

/// `str::find(c)`.
pub fn find(s: &[char], c: char) -> (r: Option<usize>)
    ensures
        r matches Some(i) ==> find_char(s@, c) == Some(i as int),
        r is None ==> find_char(s@, c) is None,
{
    let mut i: usize = 0;
    while i < s.len()
        invariant
            i <= s@.len(),
            forall|j: int| 0 <= j < i ==> s@[j] != c,
        decreases s@.len() - i,
    {
        if s[i] == c {
            proof {
                lemma_find_char_at(s@, c, i as int);
            }
            return Some(i);
        }
        i = i + 1;
    }
    proof {
        lemma_find_char_at(s@, c, i as int);
    }
    None
}

/// `str::rfind(c)`.
pub fn rfind(s: &[char], c: char) -> (r: Option<usize>)
    ensures
        r matches Some(i) ==> rfind_char(s@, c) == Some(i as int),
        r is None ==> rfind_char(s@, c) is None,
{
    let mut i: usize = s.len();
    assert(s@.take(i as int) =~= s@);
    while i > 0
        invariant
            i <= s@.len(),
            rfind_char(s@, c) == rfind_char(s@.take(i as int), c),
        decreases i,
    {
        if s[i - 1] == c {
            return Some(i - 1);
        }
        assert(s@.take(i as int).drop_last() =~= s@.take(i - 1));
        i = i - 1;
    }
    None
}


/// `str::find([..])`: the first position holding one of `cs`.
pub fn find_any_of(s: &[char], cs: &[char]) -> (r: Option<usize>)
    ensures
        r matches Some(i) ==> find_any(s@, cs@) == Some(i as int),
        r is None ==> find_any(s@, cs@) is None,
{
    let mut i: usize = 0;
    assert(s@.skip(0) =~= s@);
    while i < s.len()
        invariant
            i <= s@.len(),
            find_any(s@, cs@) == match find_any(s@.skip(i as int), cs@) {
                Some(k) => Some(k + i),
                None => None,
            },
        decreases s@.len() - i,
    {
        let c = s[i];
        let mut j: usize = 0;
        let mut hit = false;
        while j < cs.len()
            invariant
                j <= cs@.len(),
                hit == (exists|w: int| 0 <= w < j && cs@[w] == c),
            decreases cs@.len() - j,
        {
            if cs[j] == c {
                hit = true;
            }
            j = j + 1;
        }
        assert(hit == cs@.contains(c));
        assert(s@.skip(i as int)[0] == c);
        if hit {
            return Some(i);
        }
        assert(s@.skip(i as int).drop_first() =~= s@.skip(i + 1));
        i = i + 1;
    }
    None
}

/// Whether `c` occurs in `s`.
pub fn contains(s: &[char], c: char) -> (r: bool)
    ensures
        r == seq_contains_char(s@, c),
{
    let f = find(s, c);
    proof {
        lemma_find_char(s@, c);
    }
    f.is_some()
}

/// `str::find(p)` for a literal pattern.
pub fn find_lit(s: &[char], p: &str) -> (r: Option<usize>)
    ensures
        r matches Some(i) ==> find_seq(s@, p@) == Some(i as int),
        r is None ==> find_seq(s@, p@) is None,
{
    let mut i: usize = 0;
    assert(s@.skip(0) =~= s@);
    loop
        invariant
            i <= s@.len(),
            find_seq(s@, p@) == match find_seq(s@.skip(i as int), p@) {
                Some(k) => Some(k + i),
                None => None,
            },
        decreases s@.len() - i,
    {
        let rest = slice_of(s, i, s.len());
        assert(rest@ =~= s@.skip(i as int));
        if starts_with_lit(&rest, p) {
            return Some(i);
        }
        if i == s.len() {
            return None;
        }
        assert(s@.skip(i as int).drop_first() =~= s@.skip(i + 1));
        i = i + 1;
    }
}

/// `str::trim_start`.
pub fn trim_start_chars(s: &[char]) -> (r: usize)
    ensures
        r <= s@.len(),
        s@.skip(r as int) == trim_start(s@),
{
    let mut i: usize = 0;
    assert(s@.skip(0) =~= s@);
    while i < s.len() && is_whitespace(s[i])
        invariant
            i <= s@.len(),
            trim_start(s@) == trim_start(s@.skip(i as int)),
        decreases s@.len() - i,
    {
        assert(s@.skip(i as int).drop_first() =~= s@.skip(i + 1));
        i = i + 1;
    }
    i
}

/// `str::trim_end`.
pub fn trim_end_chars(s: &[char]) -> (r: usize)
    ensures
        r <= s@.len(),
        s@.take(r as int) == trim_end(s@),
{
    let mut i: usize = s.len();
    assert(s@.take(i as int) =~= s@);
    while i > 0 && is_whitespace(s[i - 1])
        invariant
            i <= s@.len(),
            trim_end(s@) == trim_end(s@.take(i as int)),
        decreases i,
    {
        assert(s@.take(i as int).drop_last() =~= s@.take(i - 1));
        i = i - 1;
    }
    i
}

/// `str::trim`.
pub fn trim_chars(s: &[char]) -> (r: Vec<char>)
    ensures
        r@ == trim(s@),
{
    let a = trim_start_chars(s);
    let t = slice_of(s, a, s.len());
    assert(t@ =~= s@.skip(a as int));
    let b = trim_end_chars(&t);
    slice_of(&t, 0, b)
}

/// `str::trim_matches(c)`.
pub fn trim_char_chars(s: &[char], c: char) -> (r: Vec<char>)
    ensures
        r@ == trim_char(s@, c),
{
    let mut i: usize = 0;
    assert(s@.skip(0) =~= s@);
    while i < s.len() && s[i] == c
        invariant
            i <= s@.len(),
            trim_char_start(s@, c) == trim_char_start(s@.skip(i as int), c),
        decreases s@.len() - i,
    {
        assert(s@.skip(i as int).drop_first() =~= s@.skip(i + 1));
        i = i + 1;
    }
    let t = slice_of(s, i, s.len());
    assert(t@ =~= s@.skip(i as int));
    let mut j: usize = t.len();
    assert(t@.take(j as int) =~= t@);
    while j > 0 && t[j - 1] == c
        invariant
            j <= t@.len(),
            trim_char_end(t@, c) == trim_char_end(t@.take(j as int), c),
        decreases j,
    {
        assert(t@.take(j as int).drop_last() =~= t@.take(j - 1));
        j = j - 1;
    }
    slice_of(&t, 0, j)
}

/// `str::lines`.
pub fn split_lines(s: &[char]) -> (r: Vec<Vec<char>>)
    ensures
        r@.len() == lines(s@).len(),
        forall|k: int| 0 <= k < r@.len() ==> (#[trigger] r@[k])@ == lines(s@)[k],
{
    let mut out: Vec<Vec<char>> = Vec::new();
    let mut i: usize = 0;
    let ghost mut acc: Seq<Seq<char>> = seq![];
    assert(s@.skip(0) =~= s@);
    while i < s.len()
        invariant
            i <= s@.len(),
            out@.len() == acc.len(),
            forall|k: int| 0 <= k < out@.len() ==> (#[trigger] out@[k])@ == acc[k],
            lines(s@) == acc + lines(s@.skip(i as int)),
        decreases s@.len() - i,
    {
        let rest = slice_of(s, i, s.len());
        assert(rest@ =~= s@.skip(i as int));
        match find(&rest, '\n') {
            None => {
                proof {
                    lemma_find_char(rest@, '\n');
                }
                out.push(rest);
                proof {
                    acc = acc.push(s@.skip(i as int));
                    assert(lines(s@.skip(i as int)) =~= seq![s@.skip(i as int)]);
                    assert(s@.skip(s@.len() as int) =~= Seq::<char>::empty());
                }
                i = s.len();
            },
            Some(k) => {
                proof {
                    lemma_find_char(rest@, '\n');
                }
                let mut line = slice_of(&rest, 0, k);
                if line.len() > 0 && line[line.len() - 1] == '\r' {
                    line.pop();
                }
                proof {
                    assert(line@ =~= strip_cr(rest@.take(k as int)));
                    assert(rest@.skip(k + 1) =~= s@.skip(i + k + 1));
                    acc = acc.push(line@);
                    assert(seq![strip_cr(rest@.take(k as int))] + lines(rest@.skip(k + 1))
                        =~= lines(rest@));
                }
                out.push(line);
                i = i + k + 1;
            },
        }
        proof {
            assert forall|k: int| 0 <= k < out@.len() implies (#[trigger] out@[k])@ == acc[k] by {}
        }
    }
    proof {
        assert(s@.skip(i as int) =~= Seq::<char>::empty());
        assert(acc + lines(s@.skip(i as int)) =~= acc);
    }
    out
}

/// `str::split(c)`.
pub fn split_on(s: &[char], c: char) -> (r: Vec<Vec<char>>)
    ensures
        r@.len() == split_char(s@, c).len(),
        forall|k: int| 0 <= k < r@.len() ==> (#[trigger] r@[k])@ == split_char(s@, c)[k],
{
    let mut out: Vec<Vec<char>> = Vec::new();
    let mut i: usize = 0;
    let ghost mut acc: Seq<Seq<char>> = seq![];
    assert(s@.skip(0) =~= s@);
    loop
        invariant
            i <= s@.len(),
            out@.len() == acc.len(),
            forall|k: int| 0 <= k < out@.len() ==> (#[trigger] out@[k])@ == acc[k],
            split_char(s@, c) == acc + split_char(s@.skip(i as int), c),
        decreases s@.len() - i,
    {
        let rest = slice_of(s, i, s.len());
        assert(rest@ =~= s@.skip(i as int));
        match find(&rest, c) {
            None => {
                out.push(rest);
                proof {
                    acc = acc.push(s@.skip(i as int));
                    assert(acc =~= split_char(s@, c));
                    assert forall|k: int| 0 <= k < out@.len() implies (#[trigger] out@[k])@
                        == acc[k] by {}
                }
                return out;
            },
            Some(k) => {
                proof {
                    lemma_find_char(rest@, c);
                }
                let piece = slice_of(&rest, 0, k);
                proof {
                    assert(rest@.skip(k + 1) =~= s@.skip(i + k + 1));
                    acc = acc.push(piece@);
                    assert(seq![rest@.take(k as int)] + split_char(rest@.skip(k + 1), c)
                        =~= split_char(rest@, c));
                }
                out.push(piece);
                i = i + k + 1;
                proof {
                    assert forall|k: int| 0 <= k < out@.len() implies (#[trigger] out@[k])@
                        == acc[k] by {}
                }
            },
        }
    }
}

} // verus!
