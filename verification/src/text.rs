//! Verified text primitives: character classes, literal and tag-shaped
//! pattern matching, and leftmost non-overlapping replace-all.
//!
//! All executable functions are specified against index-based recursive
//! spec functions over `Seq<char>`.

use vstd::prelude::*;
use vstd::string::StrSliceExecFns;

verus! {

/// Character classes the scanners use.
#[derive(Clone, Copy)]
pub enum CharClass {
    /// Whitespace accepted between a tag opener and its attributes.
    PatternWs,
    /// Any character except a double quote.
    NotQuote,
    /// Any character except `>`.
    NotGt,
}

/// True when `c` counts as pattern whitespace.
pub open spec fn is_pattern_ws(c: char) -> bool {
    c == ' ' || c == '\t' || c == '\n' || c == '\r' || c == '\u{b}' || c == '\u{c}'
}

/// Membership of `c` in the class `cls`.
pub open spec fn class_holds(cls: CharClass, c: char) -> bool {
    match cls {
        CharClass::PatternWs => is_pattern_ws(c),
        CharClass::NotQuote => c != '"',
        CharClass::NotGt => c != '>',
    }
}

/// Length of the maximal run of characters of class `cls` starting at `i`.
pub open spec fn run_at(s: Seq<char>, i: int, cls: CharClass) -> int
    decreases s.len() - i,
{
    if 0 <= i < s.len() && class_holds(cls, s[i]) {
        1 + run_at(s, i + 1, cls)
    } else {
        0
    }
}

/// A run is non-negative and stays inside the sequence.
pub proof fn lemma_run_at_bounds(s: Seq<char>, i: int, cls: CharClass)
    requires
        0 <= i <= s.len(),
    ensures
        0 <= run_at(s, i, cls),
        i + run_at(s, i, cls) <= s.len(),
    decreases s.len() - i,
{
    if i < s.len() && class_holds(cls, s[i]) {
        lemma_run_at_bounds(s, i + 1, cls);
    }
}

/// A run over characters of the class, stopped by one that is not,
/// reaches exactly that character.
pub proof fn lemma_run_at_exact(s: Seq<char>, i: int, j: int, cls: CharClass)
    requires
        0 <= i <= j < s.len(),
        forall|k: int| i <= k < j ==> class_holds(cls, #[trigger] s[k]),
        !class_holds(cls, s[j]),
    ensures
        run_at(s, i, cls) == j - i,
    decreases j - i,
{
    if i < j {
        lemma_run_at_exact(s, i + 1, j, cls);
    }
}

/// Decides membership in `cls` exactly as `class_holds` does.
pub fn char_in_class(cls: CharClass, c: char) -> (r: bool)
    ensures
        r == class_holds(cls, c),
{
    match cls {
        CharClass::PatternWs => {
            c == ' ' || c == '\t' || c == '\n' || c == '\r' || c == '\u{b}' || c == '\u{c}'
        },
        CharClass::NotQuote => c != '"',
        CharClass::NotGt => c != '>',
    }
}

/// Computes `run_at(text@, i, cls)`.
pub fn run_from(text: &[char], i: usize, cls: CharClass) -> (r: usize)
    requires
        i <= text@.len(),
    ensures
        r as int == run_at(text@, i as int, cls),
        i + r <= text@.len(),
{
    let mut j: usize = i;
    while j < text.len() && char_in_class(cls, text[j])
        invariant
            i <= j <= text@.len(),
            run_at(text@, i as int, cls) == (j - i) + run_at(text@, j as int, cls),
        decreases text@.len() - j,
    {
        j = j + 1;
    }
    j - i
}

/// The opener every meta-tag pattern starts with.
pub open spec fn meta_open() -> Seq<char> {
    seq!['<', 'm', 'e', 't', 'a']
}

/// The `content="` attribute opener.
pub open spec fn content_attr() -> Seq<char> {
    seq!['c', 'o', 'n', 't', 'e', 'n', 't', '=', '"']
}

/// A pattern the replace engine can search for.
pub enum Pattern {
    /// A fixed, non-empty character sequence.
    Literal(Vec<char>),
    /// `<meta` + whitespace + the key + whitespace + `content="` + a run of
    /// non-quote characters + `"`.
    MetaContent(Vec<char>),
    /// `<meta` + whitespace + the key + a run of non-`>` characters + `>`.
    MetaTag(Vec<char>),
}

/// The mathematical form of a `Pattern`.
pub enum PatternModel {
    Literal(Seq<char>),
    MetaContent(Seq<char>),
    MetaTag(Seq<char>),
}

impl View for Pattern {
    type V = PatternModel;

    open spec fn view(&self) -> PatternModel {
        match self {
            Pattern::Literal(v) => PatternModel::Literal(v@),
            Pattern::MetaContent(v) => PatternModel::MetaContent(v@),
            Pattern::MetaTag(v) => PatternModel::MetaTag(v@),
        }
    }
}

/// Length of the literal match of `pat` at `i`, if any.
pub open spec fn lit_match_at(pat: Seq<char>, s: Seq<char>, i: int) -> Option<int> {
    if pat.len() >= 1 && 0 <= i && i + pat.len() <= s.len() && s.subrange(i, i + pat.len()) == pat {
        Some(pat.len() as int)
    } else {
        None
    }
}

/// Length of the `MetaContent` match with `key` at `i`, if any.
pub open spec fn meta_content_match_at(key: Seq<char>, s: Seq<char>, i: int) -> Option<int> {
    if !(0 <= i && i + 5 <= s.len() && s.subrange(i, i + 5) == meta_open()) {
        None
    } else {
        let w1 = run_at(s, i + 5, CharClass::PatternWs);
        let k0 = i + 5 + w1;
        if w1 < 1 || !(k0 + key.len() <= s.len() && s.subrange(k0, k0 + key.len()) == key) {
            None
        } else {
            let w2 = run_at(s, k0 + key.len(), CharClass::PatternWs);
            let a0 = k0 + key.len() + w2;
            if w2 < 1 || !(a0 + 9 <= s.len() && s.subrange(a0, a0 + 9) == content_attr()) {
                None
            } else {
                let v0 = a0 + 9;
                let q = run_at(s, v0, CharClass::NotQuote);
                if v0 + q < s.len() {
                    Some(v0 + q + 1 - i)
                } else {
                    None
                }
            }
        }
    }
}

/// Length of the `MetaTag` match with `key` at `i`, if any.
pub open spec fn meta_tag_match_at(key: Seq<char>, s: Seq<char>, i: int) -> Option<int> {
    if !(0 <= i && i + 5 <= s.len() && s.subrange(i, i + 5) == meta_open()) {
        None
    } else {
        let w1 = run_at(s, i + 5, CharClass::PatternWs);
        let k0 = i + 5 + w1;
        if w1 < 1 || !(k0 + key.len() <= s.len() && s.subrange(k0, k0 + key.len()) == key) {
            None
        } else {
            let g0 = k0 + key.len();
            let g = run_at(s, g0, CharClass::NotGt);
            if g0 + g < s.len() {
                Some(g0 + g + 1 - i)
            } else {
                None
            }
        }
    }
}

/// Length of the match of `p` at position `i` of `s`, if any.
pub open spec fn match_len_at(p: PatternModel, s: Seq<char>, i: int) -> Option<int> {
    match p {
        PatternModel::Literal(pat) => lit_match_at(pat, s, i),
        PatternModel::MetaContent(key) => meta_content_match_at(key, s, i),
        PatternModel::MetaTag(key) => meta_tag_match_at(key, s, i),
    }
}

/// A match has positive length and ends inside the sequence.
pub proof fn lemma_match_len_at_bounds(p: PatternModel, s: Seq<char>, i: int)
    requires
        0 <= i <= s.len(),
        match_len_at(p, s, i) is Some,
    ensures
        1 <= match_len_at(p, s, i)->0,
        i + match_len_at(p, s, i)->0 <= s.len(),
{
    match p {
        PatternModel::Literal(pat) => {},
        PatternModel::MetaContent(key) => {
            lemma_run_at_bounds(s, i + 5, CharClass::PatternWs);
            let w1 = run_at(s, i + 5, CharClass::PatternWs);
            let k0 = i + 5 + w1;
            if w1 >= 1 && k0 + key.len() <= s.len() && s.subrange(k0, k0 + key.len()) == key {
                lemma_run_at_bounds(s, k0 + key.len(), CharClass::PatternWs);
                let w2 = run_at(s, k0 + key.len(), CharClass::PatternWs);
                let a0 = k0 + key.len() + w2;
                if w2 >= 1 && a0 + 9 <= s.len() && s.subrange(a0, a0 + 9) == content_attr() {
                    lemma_run_at_bounds(s, a0 + 9, CharClass::NotQuote);
                }
            }
        },
        PatternModel::MetaTag(key) => {
            lemma_run_at_bounds(s, i + 5, CharClass::PatternWs);
            let w1 = run_at(s, i + 5, CharClass::PatternWs);
            let k0 = i + 5 + w1;
            if w1 >= 1 && k0 + key.len() <= s.len() && s.subrange(k0, k0 + key.len()) == key {
                lemma_run_at_bounds(s, k0 + key.len(), CharClass::NotGt);
            }
        },
    }
}

/// True when `pat` occurs literally at `i` in `text`.
pub fn chars_eq_at(text: &[char], i: usize, pat: &[char]) -> (r: bool)
    requires
        i <= text@.len(),
    ensures
        r == (i + pat@.len() <= text@.len() && text@.subrange(
            i as int,
            i + pat@.len(),
        ) == pat@),
{
    let n = text.len();
    let m = pat.len();
    if m > n - i {
        return false;
    }
    let mut j: usize = 0;
    while j < m
        invariant
            n == text@.len(),
            m == pat@.len(),
            i + m <= n,
            0 <= j <= m,
            forall|k: int| 0 <= k < j ==> text@[i + k] == pat@[k],
        decreases pat@.len() - j,
    {
        if text[i + j] != pat[j] {
            proof {
                assert(text@.subrange(i as int, i + pat@.len())[j as int] == text@[i + j]);
            }
            return false;
        }
        j = j + 1;
    }
    proof {
        assert(text@.subrange(i as int, i + pat@.len()) =~= pat@);
    }
    true
}

/// Computes `match_len_at(p@, text@, i)`, as a `usize` length.
pub fn pattern_match_at(p: &Pattern, text: &[char], i: usize) -> (r: Option<usize>)
    requires
        i <= text@.len(),
    ensures
        match r {
            Some(l) => match_len_at(p@, text@, i as int) == Some(l as int),
            None => match_len_at(p@, text@, i as int) is None,
        },
{
    match p {
        Pattern::Literal(pat) => {
            if pat.len() >= 1 && chars_eq_at(text, i, pat.as_slice()) {
                Some(pat.len())
            } else {
                None
            }
        },
        Pattern::MetaContent(key) => {
            let n = text.len();
            let opener: [char; 5] = ['<', 'm', 'e', 't', 'a'];
            if !chars_eq_at(text, i, &opener) {
                proof {
                    assert(opener@ =~= meta_open());
                }
                return None;
            }
            proof {
                assert(opener@ =~= meta_open());
                assert(i + 5 <= n);
            }
            let w1 = run_from(text, i + 5, CharClass::PatternWs);
            let k0 = i + 5 + w1;
            if w1 < 1 || !chars_eq_at(text, k0, key.as_slice()) {
                return None;
            }
            let w2 = run_from(text, k0 + key.len(), CharClass::PatternWs);
            let a0 = k0 + key.len() + w2;
            let attr: [char; 9] = ['c', 'o', 'n', 't', 'e', 'n', 't', '=', '"'];
            if w2 < 1 || !chars_eq_at(text, a0, &attr) {
                proof {
                    assert(attr@ =~= content_attr());
                }
                return None;
            }
            proof {
                assert(attr@ =~= content_attr());
            }
            let v0 = a0 + 9;
            let q = run_from(text, v0, CharClass::NotQuote);
            if v0 + q < text.len() {
                Some(v0 + q + 1 - i)
            } else {
                None
            }
        },
        Pattern::MetaTag(key) => {
            let n = text.len();
            let opener: [char; 5] = ['<', 'm', 'e', 't', 'a'];
            if !chars_eq_at(text, i, &opener) {
                proof {
                    assert(opener@ =~= meta_open());
                }
                return None;
            }
            proof {
                assert(opener@ =~= meta_open());
                assert(i + 5 <= n);
            }
            let w1 = run_from(text, i + 5, CharClass::PatternWs);
            let k0 = i + 5 + w1;
            if w1 < 1 || !chars_eq_at(text, k0, key.as_slice()) {
                return None;
            }
            let g0 = k0 + key.len();
            let g = run_from(text, g0, CharClass::NotGt);
            if g0 + g < text.len() {
                Some(g0 + g + 1 - i)
            } else {
                None
            }
        },
    }
}

/// The text produced by replacing, from position `i` on, every leftmost
/// non-overlapping match of `p` in `s` with `rep`.
pub open spec fn replace_from(p: PatternModel, s: Seq<char>, rep: Seq<char>, i: int) -> Seq<char>
    decreases s.len() - i,
{
    if !(0 <= i < s.len()) {
        Seq::<char>::empty()
    } else {
        match match_len_at(p, s, i) {
            Some(l) => {
                if 1 <= l && i + l <= s.len() {
                    rep + replace_from(p, s, rep, i + l)
                } else {
                    seq![s[i]] + replace_from(p, s, rep, i + 1)
                }
            },
            None => seq![s[i]] + replace_from(p, s, rep, i + 1),
        }
    }
}

/// Replace every leftmost non-overlapping match of `p` in `s` with `rep`.
pub open spec fn replace_all_model(p: PatternModel, s: Seq<char>, rep: Seq<char>) -> Seq<char> {
    replace_from(p, s, rep, 0)
}

/// Appends all of `s` to `out`.
pub fn push_all(out: &mut Vec<char>, s: &[char])
    ensures
        final(out)@ == old(out)@ + s@,
{
    let mut j: usize = 0;
    while j < s.len()
        invariant
            0 <= j <= s@.len(),
            out@ == old(out)@ + s@.subrange(0, j as int),
        decreases s@.len() - j,
    {
        out.push(s[j]);
        proof {
            assert(old(out)@ + s@.subrange(0, j as int) + seq![s@[j as int]] =~= old(out)@
                + s@.subrange(0, j + 1));
        }
        j = j + 1;
    }
    proof {
        assert(s@.subrange(0, s@.len() as int) =~= s@);
    }
}

/// Computes `replace_all_model(p@, text@, rep@)`.
pub fn replace_all(p: &Pattern, text: &[char], rep: &[char]) -> (out: Vec<char>)
    ensures
        out@ == replace_all_model(p@, text@, rep@),
{
    let mut out: Vec<char> = Vec::new();
    let mut i: usize = 0;
    while i < text.len()
        invariant
            0 <= i <= text@.len(),
            replace_from(p@, text@, rep@, 0) == out@ + replace_from(p@, text@, rep@, i as int),
        decreases text@.len() - i,
    {
        match pattern_match_at(p, text, i) {
            Some(l) => {
                proof {
                    lemma_match_len_at_bounds(p@, text@, i as int);
                    assert((out@ + rep@) + replace_from(p@, text@, rep@, i + l) =~= out@ + (rep@
                        + replace_from(p@, text@, rep@, i + l)));
                }
                push_all(&mut out, rep);
                i = i + l;
            },
            None => {
                proof {
                    assert((out@ + seq![text@[i as int]]) + replace_from(p@, text@, rep@, i + 1)
                        =~= out@ + (seq![text@[i as int]] + replace_from(p@, text@, rep@, i + 1)));
                }
                out.push(text[i]);
                i = i + 1;
            },
        }
    }
    proof {
        assert(out@ + replace_from(p@, text@, rep@, i as int) =~= out@);
    }
    out
}

/// From position `i` on, a text without matches is copied unchanged.
proof fn lemma_replace_from_no_match(p: PatternModel, s: Seq<char>, rep: Seq<char>, i: int)
    requires
        0 <= i <= s.len(),
        forall|k: int| 0 <= k < s.len() ==> match_len_at(p, s, k) is None,
    ensures
        replace_from(p, s, rep, i) == s.skip(i),
    decreases s.len() - i,
{
    if i < s.len() {
        lemma_replace_from_no_match(p, s, rep, i + 1);
        assert(seq![s[i]] + s.skip(i + 1) =~= s.skip(i));
    } else {
        assert(s.skip(i) =~= Seq::<char>::empty());
    }
}

/// A text in which the pattern never matches is returned unchanged.
pub proof fn lemma_replace_all_no_match(p: PatternModel, s: Seq<char>, rep: Seq<char>)
    requires
        forall|k: int| 0 <= k < s.len() ==> match_len_at(p, s, k) is None,
    ensures
        replace_all_model(p, s, rep) == s,
{
    lemma_replace_from_no_match(p, s, rep, 0);
    assert(s.skip(0) =~= s);
}

/// A stretch of positions without matches is copied unchanged, and the
/// replacement continues after it.
pub proof fn lemma_replace_from_segment(
    p: PatternModel,
    s: Seq<char>,
    rep: Seq<char>,
    i: int,
    j: int,
)
    requires
        0 <= i <= j <= s.len(),
        forall|k: int| i <= k < j ==> #[trigger] match_len_at(p, s, k) is None,
    ensures
        replace_from(p, s, rep, i) == s.subrange(i, j) + replace_from(p, s, rep, j),
    decreases j - i,
{
    if i < j {
        lemma_replace_from_segment(p, s, rep, i + 1, j);
        assert(seq![s[i]] + (s.subrange(i + 1, j) + replace_from(p, s, rep, j)) =~= s.subrange(
            i,
            j,
        ) + replace_from(p, s, rep, j));
    } else {
        assert(s.subrange(i, i) + replace_from(p, s, rep, i) =~= replace_from(p, s, rep, i));
    }
}

/// A text that nowhere contains the literal is returned unchanged by the
/// literal replacement.
pub proof fn lemma_lit_replace_absent(s: Seq<char>, pat: Seq<char>, rep: Seq<char>)
    requires
        !contains_lit(s, pat),
    ensures
        replace_all_model(PatternModel::Literal(pat), s, rep) == s,
{
    assert forall|k: int| 0 <= k < s.len() implies match_len_at(
        PatternModel::Literal(pat),
        s,
        k,
    ) is None by {
        if lit_match_at(pat, s, k) is Some {
            assert(s.subrange(k, k + pat.len()) == pat);
        }
    }
    lemma_replace_all_no_match(PatternModel::Literal(pat), s, rep);
}

/// The characters of `s`, as a vector.
pub fn str_to_chars(s: &str) -> (r: Vec<char>)
    ensures
        r@ == s@,
{
    let n = s.unicode_len();
    let mut r: Vec<char> = Vec::new();
    let mut i: usize = 0;
    while i < n
        invariant
            n == s@.len(),
            0 <= i <= n,
            r@ == s@.subrange(0, i as int),
        decreases n - i,
    {
        r.push(s.get_char(i));
        proof {
            assert(s@.subrange(0, i as int) + seq![s@[i as int]] =~= s@.subrange(0, i + 1));
        }
        i = i + 1;
    }
    proof {
        assert(s@.subrange(0, s@.len() as int) =~= s@);
    }
    r
}

/// True when the characters of `text` are exactly those of `s`.
pub fn chars_eq_str(text: &[char], s: &str) -> (r: bool)
    ensures
        r == (text@ == s@),
{
    let n = s.unicode_len();
    if n != text.len() {
        return false;
    }
    let mut i: usize = 0;
    while i < n
        invariant
            n == s@.len(),
            n == text@.len(),
            0 <= i <= n,
            forall|k: int| 0 <= k < i ==> text@[k] == s@[k],
        decreases n - i,
    {
        if text[i] != s.get_char(i) {
            return false;
        }
        i = i + 1;
    }
    proof {
        assert(text@ =~= s@);
    }
    true
}

/// Relies on `String::from_iter` over `core::slice::Iter`: collecting
/// characters builds the string with exactly those characters.
#[verifier::external_body]
pub fn chars_to_string(v: &[char]) -> (r: String)
    ensures
        r@ == v@,
{
    v.iter().collect()
}

/// True when `pat` occurs literally somewhere in `s`.
pub open spec fn contains_lit(s: Seq<char>, pat: Seq<char>) -> bool {
    exists|i: int|
        0 <= i && i + pat.len() <= s.len() && #[trigger] s.subrange(i, i + pat.len()) == pat
}

/// Decides `contains_lit(text@, pat@)` for a non-empty pattern.
pub fn contains_chars(text: &[char], pat: &[char]) -> (r: bool)
    ensures
        r == contains_lit(text@, pat@),
{
    let n = text.len();
    let mut i: usize = 0;
    while i < n
        invariant
            n == text@.len(),
            0 <= i <= n,
            forall|k: int|
                0 <= k < i ==> !(k + pat@.len() <= text@.len() && #[trigger] text@.subrange(
                    k,
                    k + pat@.len(),
                ) == pat@),
        decreases n - i,
    {
        if chars_eq_at(text, i, pat) {
            return true;
        }
        i = i + 1;
    }
    if pat.len() == 0 {
        proof {
            assert(text@.subrange(0, 0 + pat@.len() as int) =~= pat@);
        }
        return true;
    }
    false
}

/// True when `s` begins with `pat`.
pub open spec fn starts_with_lit(s: Seq<char>, pat: Seq<char>) -> bool {
    pat.len() <= s.len() && s.subrange(0, pat.len() as int) == pat
}

/// True when `s` ends with `pat`.
pub open spec fn ends_with_lit(s: Seq<char>, pat: Seq<char>) -> bool {
    pat.len() <= s.len() && s.subrange(s.len() - pat.len(), s.len() as int) == pat
}

/// Decides `starts_with_lit(text@, pat@)`.
pub fn starts_with_chars(text: &[char], pat: &[char]) -> (r: bool)
    ensures
        r == starts_with_lit(text@, pat@),
{
    chars_eq_at(text, 0, pat)
}

/// Decides `ends_with_lit(text@, pat@)`.
pub fn ends_with_chars(text: &[char], pat: &[char]) -> (r: bool)
    ensures
        r == ends_with_lit(text@, pat@),
{
    let n = text.len();
    let m = pat.len();
    if m > n {
        return false;
    }
    chars_eq_at(text, n - m, pat)
}

/// True when `c` is a lowercase hexadecimal digit.
pub open spec fn is_hex_lower(c: char) -> bool {
    ('0' <= c && c <= '9') || ('a' <= c && c <= 'f')
}

/// True when `s` has the shape of an upstream page id: exactly 32
/// lowercase hexadecimal characters.
pub open spec fn is_page_id(s: Seq<char>) -> bool {
    s.len() == 32 && forall|i: int| 0 <= i < s.len() ==> is_hex_lower(#[trigger] s[i])
}

/// Decides `is_page_id(text@)`.
pub fn is_page_id_chars(text: &[char]) -> (r: bool)
    ensures
        r == is_page_id(text@),
{
    let n = text.len();
    if n != 32 {
        return false;
    }
    let mut i: usize = 0;
    while i < n
        invariant
            n == text@.len(),
            0 <= i <= n,
            forall|k: int| 0 <= k < i ==> is_hex_lower(#[trigger] text@[k]),
        decreases n - i,
    {
        let c = text[i];
        if !(('0' <= c && c <= '9') || ('a' <= c && c <= 'f')) {
            return false;
        }
        i = i + 1;
    }
    true
}

/// Maps an ASCII uppercase letter to its lowercase form; other characters
/// are unchanged.
pub open spec fn ascii_lower(c: char) -> char {
    if 'A' <= c && c <= 'Z' {
        match c {
            'A' => 'a',
            'B' => 'b',
            'C' => 'c',
            'D' => 'd',
            'E' => 'e',
            'F' => 'f',
            'G' => 'g',
            'H' => 'h',
            'I' => 'i',
            'J' => 'j',
            'K' => 'k',
            'L' => 'l',
            'M' => 'm',
            'N' => 'n',
            'O' => 'o',
            'P' => 'p',
            'Q' => 'q',
            'R' => 'r',
            'S' => 's',
            'T' => 't',
            'U' => 'u',
            'V' => 'v',
            'W' => 'w',
            'X' => 'x',
            'Y' => 'y',
            _ => 'z',
        }
    } else {
        c
    }
}

/// `s` with every ASCII uppercase letter lowercased.
pub open spec fn ascii_lower_seq(s: Seq<char>) -> Seq<char> {
    s.map(|i: int, c: char| ascii_lower(c))
}

/// Computes `ascii_lower(c)`.
pub fn ascii_lower_char(c: char) -> (r: char)
    ensures
        r == ascii_lower(c),
{
    if 'A' <= c && c <= 'Z' {
        match c {
            'A' => 'a',
            'B' => 'b',
            'C' => 'c',
            'D' => 'd',
            'E' => 'e',
            'F' => 'f',
            'G' => 'g',
            'H' => 'h',
            'I' => 'i',
            'J' => 'j',
            'K' => 'k',
            'L' => 'l',
            'M' => 'm',
            'N' => 'n',
            'O' => 'o',
            'P' => 'p',
            'Q' => 'q',
            'R' => 'r',
            'S' => 's',
            'T' => 't',
            'U' => 'u',
            'V' => 'v',
            'W' => 'w',
            'X' => 'x',
            'Y' => 'y',
            _ => 'z',
        }
    } else {
        c
    }
}

/// Computes `ascii_lower_seq(text@)`.
pub fn ascii_lower_chars(text: &[char]) -> (out: Vec<char>)
    ensures
        out@ == ascii_lower_seq(text@),
{
    let n = text.len();
    let mut out: Vec<char> = Vec::new();
    let mut i: usize = 0;
    while i < n
        invariant
            n == text@.len(),
            0 <= i <= n,
            out@ == ascii_lower_seq(text@.subrange(0, i as int)),
        decreases n - i,
    {
        out.push(ascii_lower_char(text[i]));
        proof {
            assert(ascii_lower_seq(text@.subrange(0, i as int)).push(ascii_lower(text@[i as int]))
                =~= ascii_lower_seq(text@.subrange(0, i + 1)));
        }
        i = i + 1;
    }
    proof {
        assert(text@.subrange(0, n as int) =~= text@);
    }
    out
}

} // verus!
