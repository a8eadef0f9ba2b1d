//! The request context handed to render functions, and the empty property
//! record of components that take none.
use vstd::prelude::*;
use crate::error::RuitlError;
use crate::html::Html;
use crate::text::str_eq;

verus! {

/// The property record of a component without properties.
#[derive(Debug, Clone, Copy, Default, PartialEq, Eq)]
pub struct EmptyProps;

/// A property record: the validation hook that generated code fills in,
/// which accepts every value unless a component says otherwise.
pub trait ComponentProps {
    fn validate(&self) -> Result<(), RuitlError>;

    /// The properties as name and value pairs; none unless a record says
    /// otherwise.
    fn to_map(&self) -> Vec<(String, String)> {
        Vec::new()
    }
}

impl ComponentProps for EmptyProps {
    fn validate(&self) -> Result<(), RuitlError> {
        Ok(())
    }
}

/// A component: renders its properties in a request context to a node
/// tree. Generated code implements it for each template.
pub trait Component {
    type Props: ComponentProps;

    fn render(&self, props: &Self::Props, context: &ComponentContext) -> Result<Html, RuitlError>;
}

/// String pairs as plain values.
pub open spec fn pairs_view(s: Seq<(String, String)>) -> Seq<(Seq<char>, Seq<char>)> {
    s.map_values(|p: (String, String)| (p.0@, p.1@))
}

/// The position of the last pair with key `k`, or -1.
pub open spec fn pair_index(m: Seq<(Seq<char>, Seq<char>)>, k: Seq<char>) -> int
    decreases m.len(),
{
    if m.len() == 0 {
        -1
    } else if m.last().0 == k {
        m.len() - 1
    } else {
        pair_index(m.drop_last(), k)
    }
}

/// `m` with `k` mapped to `v`: in place when `k` is there, appended
/// otherwise.
pub open spec fn pair_put(m: Seq<(Seq<char>, Seq<char>)>, k: Seq<char>, v: Seq<char>) -> Seq<
    (Seq<char>, Seq<char>),
> {
    let i = pair_index(m, k);
    if i >= 0 {
        m.update(i, (k, v))
    } else {
        m.push((k, v))
    }
}

/// The value of `k` in `m`, if any.
pub open spec fn pair_get(m: Seq<(Seq<char>, Seq<char>)>, k: Seq<char>) -> Option<Seq<char>> {
    let i = pair_index(m, k);
    if i >= 0 {
        Some(m[i].1)
    } else {
        None
    }
}

/// No two pairs of `m` share a key.
pub open spec fn pairs_unique(m: Seq<(Seq<char>, Seq<char>)>) -> bool {
    forall|i: int, j: int| 0 <= i < j < m.len() ==> m[i].0 != m[j].0
}

/// Setting a key keeps the keys unique.
pub proof fn lemma_pair_put_unique(m: Seq<(Seq<char>, Seq<char>)>, k: Seq<char>, v: Seq<char>)
    requires
        pairs_unique(m),
    ensures
        pairs_unique(pair_put(m, k, v)),
{
    lemma_pair_index(m, k);
    if pair_index(m, k) < 0 {
        assert forall|i: int| 0 <= i < m.len() implies m[i].0 != k by {
            if m[i].0 == k {
                lemma_last_index_exists(m, k, i);
            }
        }
    }
}

proof fn lemma_last_index_exists(m: Seq<(Seq<char>, Seq<char>)>, k: Seq<char>, i: int)
    requires
        0 <= i < m.len(),
        m[i].0 == k,
    ensures
        pair_index(m, k) >= 0,
    decreases m.len(),
{
    if m.last().0 != k {
        if i < m.len() - 1 {
            assert(m.drop_last()[i] == m[i]);
            lemma_last_index_exists(m.drop_last(), k, i);
        }
    }
}

proof fn lemma_pair_index(m: Seq<(Seq<char>, Seq<char>)>, k: Seq<char>)
    ensures
        -1 <= pair_index(m, k) < m.len(),
        pair_index(m, k) >= 0 ==> m[pair_index(m, k)].0 == k,
        forall|j: int| pair_index(m, k) < j < m.len() ==> m[j].0 != k,
    decreases m.len(),
{
    if m.len() > 0 && m.last().0 != k {
        lemma_pair_index(m.drop_last(), k);
        assert forall|j: int| pair_index(m, k) < j < m.len() implies m[j].0 != k by {
            if j < m.len() - 1 {
                assert(m.drop_last()[j] == m[j]);
            }
        }
    }
}

/// The position of key `k` in `v`, or `v.len()` if it is absent.
fn find_pair(v: &Vec<(String, String)>, k: &str) -> (r: usize)
    ensures
        pair_index(pairs_view(v@), k@) >= 0 ==> r == pair_index(pairs_view(v@), k@),
        pair_index(pairs_view(v@), k@) < 0 ==> r == v@.len(),
{
    let ghost m = pairs_view(v@);
    let mut i: usize = v.len();
    assert(m.subrange(0, i as int) =~= m);
    while i > 0
        invariant
            i <= v@.len(),
            m == pairs_view(v@),
            pair_index(m, k@) == pair_index(m.subrange(0, i as int), k@),
        decreases i,
    {
        let ghost t = m.subrange(0, i as int);
        if str_eq(v[i - 1].0.as_str(), k) {
            assert(t.last().0 == k@);
            return i - 1;
        }
        assert(t.drop_last() =~= m.subrange(0, i - 1));
        i = i - 1;
    }
    v.len()
}

/// Maps `k` to `value` in `v`.
pub(crate) fn put_pair(v: &mut Vec<(String, String)>, k: &str, value: &str)
    ensures
        pairs_view(final(v)@) == pair_put(pairs_view(old(v)@), k@, value@),
{
    let ghost m = pairs_view(v@);
    proof {
        lemma_pair_index(m, k@);
    }
    let i = find_pair(v, k);
    let key = k.to_string();
    let val = value.to_string();
    assert(key@ == k@ && val@ == value@);
    if i < v.len() {
        v.remove(i);
        v.insert(i, (key, val));
        assert(pairs_view(v@) =~= m.update(i as int, (k@, value@)));
    } else {
        v.push((key, val));
        assert(pairs_view(v@) =~= m.push((k@, value@)));
    }
}

/// The value of key `k` in `v`.
fn get_pair<'a>(v: &'a Vec<(String, String)>, k: &str) -> (r: Option<&'a String>)
    ensures
        r is Some == pair_get(pairs_view(v@), k@) is Some,
        r is Some ==> r->0@ == pair_get(pairs_view(v@), k@)->0,
{
    proof {
        lemma_pair_index(pairs_view(v@), k@);
    }
    let i = find_pair(v, k);
    if i < v.len() {
        Some(&v[i].1)
    } else {
        None
    }
}

/// What a render function knows of the request: its path, query
/// parameters, headers and environment, each a map with last write winning.
#[derive(Debug, Clone)]
pub struct ComponentContext {
    pub path: Option<String>,
    pub query: Vec<(String, String)>,
    pub headers: Vec<(String, String)>,
    pub env: Vec<(String, String)>,
}

impl ComponentContext {
    /// A context with no path and empty maps.
    pub fn new() -> (r: Self)
        ensures
            r.path is None,
            r.query@.len() == 0,
            r.headers@.len() == 0,
            r.env@.len() == 0,
    {
        ComponentContext { path: None, query: Vec::new(), headers: Vec::new(), env: Vec::new() }
    }

    /// Sets the path.
    pub fn with_path(self, path: &str) -> (r: Self)
        ensures
            r.path is Some,
            r.path->0@ == path@,
            r.query == self.query,
            r.headers == self.headers,
            r.env == self.env,
    {
        let mut c = self;
        c.path = Some(path.to_string());
        c
    }

    /// Sets query parameter `key`.
    pub fn with_query(self, key: &str, value: &str) -> (r: Self)
        ensures
            pairs_view(r.query@) == pair_put(pairs_view(self.query@), key@, value@),
            pairs_unique(pairs_view(self.query@)) ==> pairs_unique(pairs_view(r.query@)),
            r.path == self.path,
            r.headers == self.headers,
            r.env == self.env,
    {
        let mut c = self;
        proof {
            if pairs_unique(pairs_view(self.query@)) {
                lemma_pair_put_unique(pairs_view(self.query@), key@, value@);
            }
        }
        put_pair(&mut c.query, key, value);
        c
    }

    /// Sets header `key`.
    pub fn with_header(self, key: &str, value: &str) -> (r: Self)
        ensures
            pairs_view(r.headers@) == pair_put(pairs_view(self.headers@), key@, value@),
            pairs_unique(pairs_view(self.headers@)) ==> pairs_unique(pairs_view(r.headers@)),
            r.path == self.path,
            r.query == self.query,
            r.env == self.env,
    {
        let mut c = self;
        proof {
            if pairs_unique(pairs_view(self.headers@)) {
                lemma_pair_put_unique(pairs_view(self.headers@), key@, value@);
            }
        }
        put_pair(&mut c.headers, key, value);
        c
    }

    /// Sets environment variable `key`.
    pub fn with_env(self, key: &str, value: &str) -> (r: Self)
        ensures
            pairs_view(r.env@) == pair_put(pairs_view(self.env@), key@, value@),
            pairs_unique(pairs_view(self.env@)) ==> pairs_unique(pairs_view(r.env@)),
            r.path == self.path,
            r.query == self.query,
            r.headers == self.headers,
    {
        let mut c = self;
        proof {
            if pairs_unique(pairs_view(self.env@)) {
                lemma_pair_put_unique(pairs_view(self.env@), key@, value@);
            }
        }
        put_pair(&mut c.env, key, value);
        c
    }

    /// The query parameter `key`, if set.
    pub fn get_query(&self, key: &str) -> (r: Option<&String>)
        ensures
            r is Some == pair_get(pairs_view(self.query@), key@) is Some,
            r is Some ==> r->0@ == pair_get(pairs_view(self.query@), key@)->0,
    {
        get_pair(&self.query, key)
    }

    /// The header `key`, if set.
    pub fn get_header(&self, key: &str) -> (r: Option<&String>)
        ensures
            r is Some == pair_get(pairs_view(self.headers@), key@) is Some,
            r is Some ==> r->0@ == pair_get(pairs_view(self.headers@), key@)->0,
    {
        get_pair(&self.headers, key)
    }

    /// The environment variable `key`, if set.
    pub fn get_env(&self, key: &str) -> (r: Option<&String>)
        ensures
            r is Some == pair_get(pairs_view(self.env@), key@) is Some,
            r is Some ==> r->0@ == pair_get(pairs_view(self.env@), key@)->0,
    {
        get_pair(&self.env, key)
    }
}

/// A value set in a map can be read back.
pub proof fn lemma_put_then_get(m: Seq<(Seq<char>, Seq<char>)>, k: Seq<char>, v: Seq<char>)
    ensures
        pair_get(pair_put(m, k, v), k) == Some(v),
    decreases m.len(),
{
    lemma_pair_index(m, k);
    let r = pair_put(m, k, v);
    let i = pair_index(m, k);
    if i >= 0 {
        lemma_last_index(r, k, i);
    } else {
        assert(r.last().0 == k);
    }
}

proof fn lemma_last_index(m: Seq<(Seq<char>, Seq<char>)>, k: Seq<char>, i: int)
    requires
        0 <= i < m.len(),
        m[i].0 == k,
        forall|j: int| i < j < m.len() ==> m[j].0 != k,
    ensures
        pair_index(m, k) == i,
    decreases m.len(),
{
    if i < m.len() - 1 {
        lemma_last_index(m.drop_last(), k, i);
    }
}

} // verus!
