//! Character-level helpers shared by the parser, the generator and the renderer.
use vstd::prelude::*;

verus! {

/// Relies on str::chars: the characters of `s`, in order.
#[verifier::external_body]
pub(crate) fn chars_of(s: &str) -> (r: Vec<char>)
    ensures
        r@ == s@,
{
    s.chars().collect()
}

/// Relies on String::push: appends one character.
#[verifier::external_body]
pub(crate) fn push_char(s: &mut String, c: char)
    ensures
        final(s)@ == old(s)@.push(c),
{
    s.push(c)
}

/// The lower-case form of `s`.
pub uninterp spec fn lower_of(s: Seq<char>) -> Seq<char>;

/// Relies on str::to_lowercase: the lower-case mapping of `s`, which
/// depends on `s` alone.
#[verifier::external_body]
pub(crate) fn str_lower(s: &str) -> (r: String)
    ensures
        r@ == lower_of(s@),
{
    s.to_lowercase()
}

/// Appends `t` to `s`.
pub(crate) fn push_str(s: &mut String, t: &str)
    ensures
        final(s)@ == old(s)@ + t@,
{
    s.append(t);
}

/// A string holding the characters of `v`, in order.
pub(crate) fn string_of(v: &Vec<char>) -> (r: String)
    ensures
        r@ == v@,
{
    let mut r = String::new();
    let mut i: usize = 0;
    while i < v.len()
        invariant
            i <= v@.len(),
            r@ == v@.subrange(0, i as int),
        decreases v@.len() - i,
    {
        push_char(&mut r, v[i]);
        i = i + 1;
        assert(r@ =~= v@.subrange(0, i as int));
    }
    assert(v@.subrange(0, v@.len() as int) =~= v@);
    r
}

/// Whether `v` holds exactly the characters of `s`.
pub(crate) fn chars_eq(v: &Vec<char>, s: &str) -> (r: bool)
    ensures
        r == (v@ == s@),
{
    let w = chars_of(s);
    if v.len() != w.len() {
        return false;
    }
    let mut i: usize = 0;
    while i < v.len()
        invariant
            i <= v@.len(),
            v@.len() == w@.len(),
            w@ == s@,
            v@.subrange(0, i as int) == w@.subrange(0, i as int),
        decreases v@.len() - i,
    {
        if v[i] != w[i] {
            assert(v@[i as int] != w@[i as int]);
            return false;
        }
        i = i + 1;
        assert(v@.subrange(0, i as int) =~= w@.subrange(0, i as int)) by {
            assert(v@.subrange(0, i as int) =~= v@.subrange(0, i - 1).push(v@[i - 1]));
            assert(w@.subrange(0, i as int) =~= w@.subrange(0, i - 1).push(w@[i - 1]));
        }
    }
    assert(v@ =~= v@.subrange(0, v@.len() as int));
    assert(w@ =~= w@.subrange(0, w@.len() as int));
    true
}

/// The Unicode `White_Space` characters.
pub open spec fn is_space(c: char) -> bool {
    ('\u{9}' <= c && c <= '\u{d}') || c == ' ' || c == '\u{85}' || c == '\u{a0}'
        || c == '\u{1680}' || ('\u{2000}' <= c && c <= '\u{200a}') || c == '\u{2028}'
        || c == '\u{2029}' || c == '\u{202f}' || c == '\u{205f}' || c == '\u{3000}'
}

/// Whether `c` is a Unicode `White_Space` character.
pub fn char_is_space(c: char) -> (r: bool)
    ensures
        r == is_space(c),
{
    ('\u{9}' <= c && c <= '\u{d}') || c == ' ' || c == '\u{85}' || c == '\u{a0}'
        || c == '\u{1680}' || ('\u{2000}' <= c && c <= '\u{200a}') || c == '\u{2028}'
        || c == '\u{2029}' || c == '\u{202f}' || c == '\u{205f}' || c == '\u{3000}'
}

/// An ASCII letter.
pub open spec fn is_alpha(c: char) -> bool {
    ('a' <= c && c <= 'z') || ('A' <= c && c <= 'Z')
}

/// An ASCII letter or digit.
pub open spec fn is_alnum(c: char) -> bool {
    is_alpha(c) || ('0' <= c && c <= '9')
}

/// A character that may continue an identifier.
pub open spec fn is_ident_char(c: char) -> bool {
    is_alnum(c) || c == '_'
}

pub fn char_is_ident(c: char) -> (r: bool)
    ensures
        r == is_ident_char(c),
{
    ('a' <= c && c <= 'z') || ('A' <= c && c <= 'Z') || ('0' <= c && c <= '9') || c == '_'
}

pub fn char_is_ident_start(c: char) -> (r: bool)
    ensures
        r == (is_alpha(c) || c == '_'),
{
    ('a' <= c && c <= 'z') || ('A' <= c && c <= 'Z') || c == '_'
}

/// Length of the longest prefix of `t` whose characters all satisfy `f`.
pub open spec fn lead_count(t: Seq<char>, f: spec_fn(char) -> bool) -> nat
    decreases t.len(),
{
    if t.len() > 0 && f(t[0]) {
        1 + lead_count(t.drop_first(), f)
    } else {
        0
    }
}

/// Length of the longest suffix of `t` whose characters all satisfy `f`.
pub open spec fn trail_count(t: Seq<char>, f: spec_fn(char) -> bool) -> nat
    decreases t.len(),
{
    if t.len() > 0 && f(t.last()) {
        1 + trail_count(t.drop_last(), f)
    } else {
        0
    }
}

/// The prefix of satisfying characters ends at the first one that fails.
pub proof fn lemma_lead_count(t: Seq<char>, f: spec_fn(char) -> bool, k: int)
    requires
        0 <= k <= t.len(),
        forall|i: int| 0 <= i < k ==> f(t[i]),
        k == t.len() || !f(t[k]),
    ensures
        lead_count(t, f) == k,
    decreases k,
{
    if k > 0 {
        assert forall|i: int| 0 <= i < k - 1 implies f(t.drop_first()[i]) by {
            assert(t.drop_first()[i] == t[i + 1]);
        }
        lemma_lead_count(t.drop_first(), f, k - 1);
    }
}

/// The suffix of satisfying characters starts after the last one that fails.
pub proof fn lemma_trail_count(t: Seq<char>, f: spec_fn(char) -> bool, k: int)
    requires
        0 <= k <= t.len(),
        forall|i: int| t.len() - k <= i < t.len() ==> f(t[i]),
        k == t.len() || !f(t[t.len() - k - 1]),
    ensures
        trail_count(t, f) == k,
    decreases k,
{
    if k > 0 {
        assert forall|i: int| t.len() - 1 - (k - 1) <= i < t.len() - 1 implies f(
            t.drop_last()[i],
        ) by {
            assert(t.drop_last()[i] == t[i]);
        }
        lemma_trail_count(t.drop_last(), f, k - 1);
    }
}

pub proof fn lemma_lead_count_bound(t: Seq<char>, f: spec_fn(char) -> bool)
    ensures
        lead_count(t, f) <= t.len(),
    decreases t.len(),
{
    if t.len() > 0 && f(t[0]) {
        lemma_lead_count_bound(t.drop_first(), f);
    }
}

/// The prefix of satisfying characters is followed by one that fails, if any.
pub proof fn lemma_lead_count_stop(t: Seq<char>, f: spec_fn(char) -> bool)
    ensures
        lead_count(t, f) <= t.len(),
        lead_count(t, f) < t.len() ==> !f(t[lead_count(t, f) as int]),
        forall|i: int| 0 <= i < lead_count(t, f) ==> f(t[i]),
    decreases t.len(),
{
    if t.len() > 0 && f(t[0]) {
        lemma_lead_count_stop(t.drop_first(), f);
        assert forall|i: int| 0 <= i < lead_count(t, f) implies f(t[i]) by {
            if i > 0 {
                assert(t[i] == t.drop_first()[i - 1]);
            }
        }
    }
}

/// Number of leading white-space characters of `s`.
pub open spec fn lead_space(s: Seq<char>) -> nat {
    lead_count(s, |c: char| is_space(c))
}

/// Number of trailing white-space characters of `s`.
pub open spec fn trail_space(s: Seq<char>) -> nat {
    trail_count(s, |c: char| is_space(c))
}

/// `s` without leading and trailing white space.
pub open spec fn trim(s: Seq<char>) -> Seq<char> {
    let a = lead_space(s);
    if a == s.len() {
        Seq::empty()
    } else {
        s.subrange(a as int, s.len() - trail_space(s))
    }
}

/// Whether `a` and `b` hold the same characters.
pub(crate) fn str_eq(a: &str, b: &str) -> (r: bool)
    ensures
        r == (a@ == b@),
{
    let v = chars_of(a);
    chars_eq(&v, b)
}

/// `s` holds `w` at position `p`.
pub open spec fn occurs_at(s: Seq<char>, p: int, w: Seq<char>) -> bool {
    0 <= p && p + w.len() <= s.len() && s.subrange(p, p + w.len()) == w
}

/// `s` holds `w` somewhere.
pub open spec fn contains_seq(s: Seq<char>, w: Seq<char>) -> bool {
    exists|p: int| #[trigger] occurs_at(s, p, w)
}

/// `s` with every occurrence of the non-empty `from`, left to right and not
/// overlapping, replaced by `to`.
pub open spec fn replace_all(s: Seq<char>, from: Seq<char>, to: Seq<char>) -> Seq<char>
    decreases s.len(),
{
    if from.len() == 0 || s.len() < from.len() {
        s
    } else if s.subrange(0, from.len() as int) == from {
        to + replace_all(s.subrange(from.len() as int, s.len() as int), from, to)
    } else {
        seq![s[0]] + replace_all(s.drop_first(), from, to)
    }
}

/// Whether `w` occurs in `s` at position `p`.
pub(crate) fn occurs_here(s: &Vec<char>, p: usize, w: &Vec<char>) -> (r: bool)
    ensures
        r == occurs_at(s@, p as int, w@),
{
    if p > s.len() || w.len() > s.len() - p {
        return false;
    }
    let mut i: usize = 0;
    while i < w.len()
        invariant
            p <= s@.len(),
            p + w@.len() <= s@.len(),
            s@.len() == s.len(),
            i <= w@.len(),
            forall|j: int| 0 <= j < i ==> s@[p + j] == w@[j],
        decreases w@.len() - i,
    {
        if s[p + i] != w[i] {
            assert(s@.subrange(p as int, p + w@.len())[i as int] != w@[i as int]);
            return false;
        }
        i = i + 1;
    }
    assert(s@.subrange(p as int, p + w@.len()) =~= w@);
    true
}

/// The first position at or after `from` where `w` occurs in `s`.
pub(crate) fn find_from(s: &Vec<char>, w: &Vec<char>, from: usize) -> (r: Option<usize>)
    ensures
        r is Some ==> from <= r->0 && occurs_at(s@, r->0 as int, w@) && forall|j: int|
            from <= j < r->0 ==> !occurs_at(s@, j, w@),
        r is None ==> forall|j: int| from <= j ==> !occurs_at(s@, j, w@),
{
    let mut i: usize = from;
    while i < s.len()
        invariant
            from <= i,
            forall|j: int| from <= j < i ==> !occurs_at(s@, j, w@),
        decreases s@.len() - i,
    {
        if occurs_here(s, i, w) {
            return Some(i);
        }
        i = i + 1;
    }
    if i == s.len() && occurs_here(s, i, w) {
        return Some(i);
    }
    assert forall|j: int| from <= j implies !occurs_at(s@, j, w@) by {
        if j >= i && j > s@.len() {
            assert(!occurs_at(s@, j, w@));
        }
    }
    None
}

/// `s` with every occurrence of `from` replaced by `to`.
pub(crate) fn replace_str(s: &str, from: &str, to: &str) -> (r: String)
    requires
        from@.len() > 0,
    ensures
        r@ == replace_all(s@, from@, to@),
{
    let v = chars_of(s);
    let f = chars_of(from);
    let mut r = String::new();
    let mut i: usize = 0;
    assert(v@.subrange(0, v@.len() as int) =~= s@);
    assert(r@ + s@ =~= s@);
    while i < v.len()
        invariant
            v@ == s@,
            f@ == from@,
            f@.len() > 0,
            i <= v@.len(),
            replace_all(s@, from@, to@) == r@ + replace_all(
                v@.subrange(i as int, v@.len() as int),
                from@,
                to@,
            ),
        decreases v@.len() - i,
    {
        let ghost rest = v@.subrange(i as int, v@.len() as int);
        if f.len() <= v.len() - i && occurs_here(&v, i, &f) {
            proof {
                assert(rest.subrange(0, f@.len() as int) =~= v@.subrange(i as int, i + f@.len()));
                assert(rest.subrange(f@.len() as int, rest.len() as int) =~= v@.subrange(
                    i + f@.len(),
                    v@.len() as int,
                ));
                assert(r@ + (to@ + replace_all(v@.subrange(i + f@.len(), v@.len() as int), from@, to@))
                    =~= (r@ + to@) + replace_all(v@.subrange(i + f@.len(), v@.len() as int), from@, to@));
            }
            push_str(&mut r, to);
            i = i + f.len();
        } else {
            proof {
                if rest.len() >= f@.len() {
                    assert(rest.subrange(0, f@.len() as int) =~= v@.subrange(i as int, i + f@.len()));
                }
                assert(rest.drop_first() =~= v@.subrange(i + 1, v@.len() as int));
                assert(rest[0] == v@[i as int]);
                assert(r@ + (seq![v@[i as int]] + replace_all(rest.drop_first(), from@, to@))
                    =~= r@.push(v@[i as int]) + replace_all(rest.drop_first(), from@, to@));
            }
            push_char(&mut r, v[i]);
            i = i + 1;
        }
    }
    assert(r@ + replace_all(v@.subrange(i as int, v@.len() as int), from@, to@) =~= r@);
    r
}

/// The suffix of satisfying characters is preceded by one that fails, if any.
pub proof fn lemma_trail_count_stop(t: Seq<char>, f: spec_fn(char) -> bool)
    ensures
        trail_count(t, f) <= t.len(),
        trail_count(t, f) < t.len() ==> !f(t[t.len() - trail_count(t, f) - 1]),
    decreases t.len(),
{
    if t.len() > 0 && f(t.last()) {
        lemma_trail_count_stop(t.drop_last(), f);
    }
}

/// Trimming leaves nothing when every character is white space.
pub proof fn lemma_trim_blank(s: Seq<char>)
    requires
        forall|i: int| 0 <= i < s.len() ==> is_space(s[i]),
    ensures
        trim(s).len() == 0,
{
    lemma_lead_count(s, |c: char| is_space(c), s.len() as int);
}

/// Trimming leaves something when a character is not white space.
pub proof fn lemma_trim_nonblank(s: Seq<char>, k: int)
    requires
        0 <= k < s.len(),
        !is_space(s[k]),
    ensures
        trim(s).len() > 0,
{
    let f = |c: char| is_space(c);
    lemma_lead_count_stop(s, f);
    lemma_trail_count_stop(s, f);
    let a = lead_count(s, f) as int;
    let b = trail_count(s, f) as int;
    assert(a <= k);
    if s.len() - b - 1 < k {
        lemma_trail_all(s, f, k);
    }
}

proof fn lemma_trail_all(t: Seq<char>, f: spec_fn(char) -> bool, k: int)
    requires
        t.len() - trail_count(t, f) <= k < t.len(),
    ensures
        f(t[k]),
    decreases t.len(),
{
    lemma_trail_count_stop(t, f);
    if k < t.len() - 1 {
        assert(t.len() > 0 && f(t.last()));
        assert(t.drop_last()[k] == t[k]);
        lemma_trail_all(t.drop_last(), f, k);
    }
}

/// Whether `s` is empty once trimmed: it holds white space only.
pub fn is_blank(s: &str) -> (r: bool)
    ensures
        r == (trim(s@).len() == 0),
{
    let v = chars_of(s);
    let mut i: usize = 0;
    while i < v.len()
        invariant
            v@ == s@,
            i <= v@.len(),
            forall|j: int| 0 <= j < i ==> is_space(v@[j]),
        decreases v@.len() - i,
    {
        if !char_is_space(v[i]) {
            proof {
                lemma_trim_nonblank(s@, i as int);
            }
            return false;
        }
        i = i + 1;
    }
    proof {
        lemma_trim_blank(s@);
    }
    true
}

} // verus!
