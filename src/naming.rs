//! Names of generated items derived from file names.
use vstd::prelude::*;
use crate::text::{chars_of, lower_of, push_str, str_lower, string_of};

verus! {

/// The upper-case form of `c`; it may take several characters.
pub uninterp spec fn upper_of(c: char) -> Seq<char>;


/// Relies on char::to_uppercase: the upper-case mapping of `c`, which
/// depends on `c` alone.
#[verifier::external_body]
fn char_upper(c: char) -> (r: String)
    ensures
        r@ == upper_of(c),
{
    c.to_uppercase().collect()
}


/// A character that separates words in a file name.
pub open spec fn is_word_sep(c: char) -> bool {
    c == '_' || c == '-'
}

/// The words of `s` between separators; empty words included.
pub open spec fn words(s: Seq<char>) -> Seq<Seq<char>>
    decreases s.len(),
{
    if s.len() == 0 {
        seq![Seq::empty()]
    } else {
        let w = words(s.drop_last());
        if is_word_sep(s.last()) {
            w.push(Seq::empty())
        } else if w.len() == 0 {
            seq![seq![s.last()]]
        } else {
            w.update(w.len() - 1, w.last().push(s.last()))
        }
    }
}

/// A word with its first character upper-cased and the rest lower-cased.
pub open spec fn capitalized(w: Seq<char>) -> Seq<char> {
    if w.len() == 0 {
        Seq::empty()
    } else {
        upper_of(w[0]) + lower_of(w.drop_first())
    }
}

/// Several words capitalized and joined.
pub open spec fn join_capitalized(ws: Seq<Seq<char>>) -> Seq<char>
    decreases ws.len(),
{
    if ws.len() == 0 {
        Seq::empty()
    } else {
        join_capitalized(ws.drop_last()) + capitalized(ws.last())
    }
}

/// `s` in PascalCase: split at `_` and `-`, each word capitalized.
pub open spec fn pascal_case(s: Seq<char>) -> Seq<char> {
    join_capitalized(words(s))
}

proof fn lemma_words_nonempty(s: Seq<char>)
    ensures
        words(s).len() >= 1,
    decreases s.len(),
{
    if s.len() > 0 {
        lemma_words_nonempty(s.drop_last());
    }
}

/// The characters `a..b` of `v`.
fn slice_chars(v: &Vec<char>, a: usize, b: usize) -> (r: String)
    requires
        a <= b <= v@.len(),
    ensures
        r@ == v@.subrange(a as int, b as int),
{
    let mut part: Vec<char> = Vec::new();
    let mut i: usize = a;
    while i < b
        invariant
            a <= i <= b,
            b <= v@.len(),
            part@ == v@.subrange(a as int, i as int),
        decreases b - i,
    {
        part.push(v[i]);
        i = i + 1;
        assert(part@ =~= v@.subrange(a as int, i as int));
    }
    string_of(&part)
}

/// The words of `s` between `_` and `-`; see `words`.
pub fn split_words(s: &str) -> (r: Vec<String>)
    ensures
        r@.map_values(|w: String| w@) == words(s@),
{
    let v = chars_of(s);
    let mut out: Vec<String> = Vec::new();
    let mut start: usize = 0;
    let mut i: usize = 0;
    while i < v.len()
        invariant
            v@ == s@,
            start <= i <= v@.len(),
            words(v@.subrange(0, i as int)).len() >= 1,
            out@.map_values(|w: String| w@) == words(v@.subrange(0, i as int)).drop_last(),
            words(v@.subrange(0, i as int)).last() == v@.subrange(start as int, i as int),
        decreases v@.len() - i,
    {
        let ghost prefix = v@.subrange(0, i as int);
        let ghost next = v@.subrange(0, i + 1);
        let ghost before = out@;
        proof {
            assert(next.drop_last() =~= prefix);
            lemma_words_nonempty(prefix);
        }
        if v[i] == '_' || v[i] == '-' {
            let word = slice_chars(&v, start, i);
            out.push(word);
            proof {
                let w = words(prefix);
                assert(words(next) == w.push(Seq::empty()));
                assert(words(next).drop_last() =~= w);
                assert(out@.map_values(|x: String| x@) =~= before.map_values(|x: String| x@).push(
                    w.last(),
                ));
                assert(w.drop_last().push(w.last()) =~= w);
                assert(v@.subrange((i + 1) as int, (i + 1) as int) =~= Seq::<char>::empty());
            }
            start = i + 1;
        } else {
            proof {
                let w = words(prefix);
                assert(words(next) == w.update(w.len() - 1, w.last().push(v@[i as int])));
                assert(words(next).drop_last() =~= w.drop_last());
                assert(v@.subrange(start as int, i + 1) =~= v@.subrange(start as int, i as int).push(
                    v@[i as int],
                ));
            }
        }
        i = i + 1;
    }
    let ghost before = out@;
    let last = slice_chars(&v, start, v.len());
    out.push(last);
    proof {
        let w = words(v@.subrange(0, v@.len() as int));
        assert(v@.subrange(0, v@.len() as int) =~= s@);
        assert(out@.map_values(|x: String| x@) =~= before.map_values(|x: String| x@).push(w.last()));
        assert(w.drop_last().push(w.last()) =~= w);
    }
    out
}

/// A word with its first character upper-cased and the rest lower-cased;
/// see `capitalized`.
pub fn capitalize(word: &str) -> (r: String)
    ensures
        r@ == capitalized(word@),
{
    let v = chars_of(word);
    if v.len() == 0 {
        return String::new();
    }
    let mut r = char_upper(v[0]);
    let rest = slice_chars(&v, 1, v.len());
    let lower = str_lower(rest.as_str());
    push_str(&mut r, lower.as_str());
    assert(v@.drop_first() =~= v@.subrange(1, v@.len() as int));
    r
}

/// `s` in PascalCase; see `pascal_case`.
pub fn to_pascal_case(s: &str) -> (r: String)
    ensures
        r@ == pascal_case(s@),
{
    let parts = split_words(s);
    let ghost ws = parts@.map_values(|w: String| w@);
    let mut out = String::new();
    let mut i: usize = 0;
    while i < parts.len()
        invariant
            i <= parts@.len(),
            ws == parts@.map_values(|w: String| w@),
            ws == words(s@),
            out@ == join_capitalized(ws.subrange(0, i as int)),
        decreases parts@.len() - i,
    {
        let c = capitalize(parts[i].as_str());
        push_str(&mut out, c.as_str());
        proof {
            let t = ws.subrange(0, i + 1);
            assert(t.drop_last() =~= ws.subrange(0, i as int));
            assert(t.last() == parts@[i as int]@);
        }
        i = i + 1;
    }
    assert(ws.subrange(0, ws.len() as int) =~= ws);
    out
}

} // verus!
