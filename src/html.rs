//! HTML node model and string renderer.
use vstd::prelude::*;
use vstd::string::*;
use crate::text::{lower_of, push_str, str_eq, str_lower};

verus! {

/// The value carried by an attribute of an element.
#[derive(Debug, Clone)]
pub enum HtmlAttribute {
    /// An attribute with a value, such as `class="example"`.
    Value(String),
    /// A boolean attribute, such as `disabled`.
    Boolean,
    /// Several values joined by spaces, such as `class="one two"`.
    List(Vec<String>),
}

/// An HTML element: a tag, its attributes in insertion order with unique
/// names, its children and whether it was marked self-closing.
#[derive(Debug)]
pub struct HtmlElement {
    pub tag: String,
    pub attributes: Vec<(String, HtmlAttribute)>,
    pub children: Vec<Html>,
    pub self_closing: bool,
}

/// A node of the HTML tree.
#[derive(Debug)]
pub enum Html {
    /// Text, escaped when rendered.
    Text(String),
    /// Markup emitted as it is.
    Raw(String),
    /// An element.
    Element(HtmlElement),
    /// Several nodes with no wrapper.
    Fragment(Vec<Html>),
    /// Nothing.
    Empty,
}

// ---------------------------------------------------------------------
// Escaping
// ---------------------------------------------------------------------

/// The replacement of one character in text content.
pub open spec fn escape_text_char(c: char) -> Seq<char> {
    if c == '&' {
        "&amp;"@
    } else if c == '<' {
        "&lt;"@
    } else if c == '>' {
        "&gt;"@
    } else {
        seq![c]
    }
}

/// The replacement of one character in a quoted attribute value.
pub open spec fn escape_attr_char(c: char) -> Seq<char> {
    if c == '"' {
        "&quot;"@
    } else if c == '\'' {
        "&#x27;"@
    } else {
        escape_text_char(c)
    }
}

/// Text content with `&`, `<` and `>` replaced by entities.
pub open spec fn escape_text(s: Seq<char>) -> Seq<char>
    decreases s.len(),
{
    if s.len() == 0 {
        Seq::empty()
    } else {
        escape_text(s.drop_last()) + escape_text_char(s.last())
    }
}

/// An attribute value with `&`, `<`, `>`, `"` and `'` replaced by entities.
pub open spec fn escape_attr(s: Seq<char>) -> Seq<char>
    decreases s.len(),
{
    if s.len() == 0 {
        Seq::empty()
    } else {
        escape_attr(s.drop_last()) + escape_attr_char(s.last())
    }
}

/// Relies on html_escape::encode_text, which replaces `&`, `<` and `>` by
/// their entities and keeps every other character.
#[verifier::external_body]
fn encode_text(s: &str) -> (r: String)
    ensures
        r@ == escape_text(s@),
{
    html_escape::encode_text(s).into_owned()
}

/// Relies on html_escape::encode_quoted_attribute, which replaces `&`, `<`,
/// `>`, `"` and `'` by their entities and keeps every other character.
#[verifier::external_body]
fn encode_quoted_attribute(s: &str) -> (r: String)
    ensures
        r@ == escape_attr(s@),
{
    html_escape::encode_quoted_attribute(s).into_owned()
}

// ---------------------------------------------------------------------
// Void elements
// ---------------------------------------------------------------------

/// The tags that never hold children, compared after lower-casing.
pub open spec fn is_void_tag(t: Seq<char>) -> bool {
    let l = lower_of(t);
    l == "area"@ || l == "base"@ || l == "br"@ || l == "col"@ || l == "embed"@ || l == "hr"@
        || l == "img"@ || l == "input"@ || l == "link"@ || l == "meta"@ || l == "param"@
        || l == "source"@ || l == "track"@ || l == "wbr"@
}

/// Whether `tag` names a void element.
pub fn is_void_element(tag: &str) -> (r: bool)
    ensures
        r == is_void_tag(tag@),
{
    let lowered = str_lower(tag);
    let l = lowered.as_str();
    str_eq(l, "area") || str_eq(l, "base") || str_eq(l, "br") || str_eq(l, "col") || str_eq(
        l,
        "embed",
    ) || str_eq(l, "hr") || str_eq(l, "img") || str_eq(l, "input") || str_eq(l, "link")
        || str_eq(l, "meta") || str_eq(l, "param") || str_eq(l, "source") || str_eq(l, "track")
        || str_eq(l, "wbr")
}

// ---------------------------------------------------------------------
// The rendered form
// ---------------------------------------------------------------------

/// The views of several strings joined by single spaces.
pub open spec fn join_space(s: Seq<String>) -> Seq<char>
    decreases s.len(),
{
    if s.len() == 0 {
        Seq::empty()
    } else if s.len() == 1 {
        s[0]@
    } else {
        join_space(s.drop_last()) + " "@ + s.last()@
    }
}

/// The quoted value that an attribute renders to; empty for a boolean one.
pub open spec fn attr_value_text(a: HtmlAttribute) -> Seq<char> {
    match a {
        HtmlAttribute::Boolean => Seq::empty(),
        HtmlAttribute::Value(v) => "\""@ + escape_attr(v@) + "\""@,
        HtmlAttribute::List(l) => "\""@ + escape_attr(join_space(l@)) + "\""@,
    }
}

/// The text that one attribute renders to, with its leading space.
pub open spec fn render_attr(name: Seq<char>, a: HtmlAttribute) -> Seq<char> {
    match a {
        HtmlAttribute::Boolean => " "@ + name,
        _ => " "@ + name + "="@ + attr_value_text(a),
    }
}

/// The text that a list of attributes renders to, in order.
pub open spec fn render_attrs(s: Seq<(String, HtmlAttribute)>) -> Seq<char>
    decreases s.len(),
{
    if s.len() == 0 {
        Seq::empty()
    } else {
        render_attrs(s.drop_last()) + render_attr(s.last().0@, s.last().1)
    }
}

/// Whether an element renders without children and closing tag.
pub open spec fn closes_itself(e: HtmlElement) -> bool {
    e.self_closing || is_void_tag(e.tag@)
}

/// The text that an element renders to.
pub open spec fn render_element(e: HtmlElement) -> Seq<char>
    decreases e, 1nat,
{
    if closes_itself(e) {
        "<"@ + e.tag@ + render_attrs(e.attributes@) + " />"@
    } else {
        "<"@ + e.tag@ + render_attrs(e.attributes@) + ">"@ + render_nodes(e.children@) + "</"@
            + e.tag@ + ">"@
    }
}

/// The text that a node renders to: depth first, text escaped, raw markup as
/// it is.
pub open spec fn render_node(h: Html) -> Seq<char>
    decreases h, 2nat,
{
    match h {
        Html::Text(t) => escape_text(t@),
        Html::Raw(r) => r@,
        Html::Element(e) => render_element(e),
        Html::Fragment(c) => render_nodes(c@),
        Html::Empty => Seq::empty(),
    }
}

/// The texts of several nodes, concatenated in order.
pub open spec fn render_nodes(s: Seq<Html>) -> Seq<char>
    decreases s, 0nat,
{
    if s.len() == 0 {
        Seq::empty()
    } else {
        render_nodes(s.subrange(0, s.len() - 1)) + render_node(s[s.len() - 1])
    }
}

/// The views of several strings joined by single spaces.
fn join_with_space(l: &Vec<String>) -> (r: String)
    ensures
        r@ == join_space(l@),
{
    let mut r = String::new();
    let mut i: usize = 0;
    while i < l.len()
        invariant
            i <= l@.len(),
            r@ == join_space(l@.subrange(0, i as int)),
        decreases l@.len() - i,
    {
        if i > 0 {
            push_str(&mut r, " ");
        }
        push_str(&mut r, l[i].as_str());
        proof {
            let t = l@.subrange(0, i + 1);
            assert(t.drop_last() =~= l@.subrange(0, i as int));
        }
        i = i + 1;
    }
    assert(l@.subrange(0, l@.len() as int) =~= l@);
    r
}

impl HtmlAttribute {
    /// The quoted, escaped value of the attribute; empty for a boolean one.
    pub fn render(&self) -> (r: String)
        ensures
            r@ == attr_value_text(*self),
    {
        match self {
            HtmlAttribute::Value(v) => {
                let mut r = String::new();
                push_str(&mut r, "\"");
                let e = encode_quoted_attribute(v.as_str());
                push_str(&mut r, e.as_str());
                push_str(&mut r, "\"");
                r
            },
            HtmlAttribute::Boolean => String::new(),
            HtmlAttribute::List(l) => {
                let joined = join_with_space(l);
                let mut r = String::new();
                push_str(&mut r, "\"");
                let e = encode_quoted_attribute(joined.as_str());
                push_str(&mut r, e.as_str());
                push_str(&mut r, "\"");
                r
            },
        }
    }

    /// Whether this is a boolean attribute.
    pub fn is_boolean(&self) -> (r: bool)
        ensures
            r == (*self is Boolean),
    {
        match self {
            HtmlAttribute::Boolean => true,
            _ => false,
        }
    }
}

impl Html {
    /// Appends the rendered form of this node to `out`.
    pub fn render_to(&self, out: &mut String)
        ensures
            final(out)@ == old(out)@ + render_node(*self),
        decreases self,
    {
        match self {
            Html::Text(t) => {
                let e = encode_text(t.as_str());
                push_str(out, e.as_str());
            },
            Html::Raw(r) => {
                push_str(out, r.as_str());
            },
            Html::Element(e) => {
                e.render_to(out);
            },
            Html::Fragment(children) => {
                render_all(children, out);
            },
            Html::Empty => {
                assert(old(out)@ + render_node(*self) =~= old(out)@);
            },
        }
    }

    /// The rendered form of this node.
    pub fn render(&self) -> (r: String)
        ensures
            r@ == render_node(*self),
    {
        let mut out = String::new();
        self.render_to(&mut out);
        assert(out@ =~= render_node(*self));
        out
    }
}

/// Appends the rendered forms of `children`, in order, to `out`.
fn render_all(children: &Vec<Html>, out: &mut String)
    ensures
        final(out)@ == old(out)@ + render_nodes(children@),
    decreases children,
{
    let ghost start = out@;
    let mut i: usize = 0;
    while i < children.len()
        invariant
            i <= children@.len(),
            out@ == start + render_nodes(children@.subrange(0, i as int)),
        decreases children@.len() - i,
    {
        proof {
            assert(decreases_to!(children => children[i as int]));
        }
        children[i].render_to(out);
        proof {
            let t = children@.subrange(0, i + 1);
            assert(t.subrange(0, t.len() - 1) =~= children@.subrange(0, i as int));
            assert(t[t.len() - 1] == children@[i as int]);
        }
        i = i + 1;
    }
    assert(children@.subrange(0, children@.len() as int) =~= children@);
}

impl HtmlElement {
    /// Whether this element renders without children and closing tag: it
    /// was marked so, or its tag names a void element.
    pub fn is_self_closing(&self) -> (r: bool)
        ensures
            r == closes_itself(*self),
    {
        self.self_closing || is_void_element(self.tag.as_str())
    }

    /// Appends the rendered form of this element to `out`.
    pub fn render_to(&self, out: &mut String)
        ensures
            final(out)@ == old(out)@ + render_element(*self),
        decreases self,
    {
        let ghost start = out@;
        push_str(out, "<");
        push_str(out, self.tag.as_str());
        let mut i: usize = 0;
        while i < self.attributes.len()
            invariant
                i <= self.attributes@.len(),
                out@ == start + "<"@ + self.tag@ + render_attrs(self.attributes@.subrange(0, i as int)),
            decreases self.attributes@.len() - i,
        {
            let (key, value) = (&self.attributes[i].0, &self.attributes[i].1);
            push_str(out, " ");
            push_str(out, key.as_str());
            if !value.is_boolean() {
                push_str(out, "=");
                let v = value.render();
                push_str(out, v.as_str());
            }
            proof {
                let t = self.attributes@.subrange(0, i + 1);
                assert(t.drop_last() =~= self.attributes@.subrange(0, i as int));
            }
            i = i + 1;
        }
        assert(self.attributes@.subrange(0, self.attributes@.len() as int) =~= self.attributes@);
        if self.is_self_closing() {
            push_str(out, " />");
        } else {
            push_str(out, ">");
            render_all(&self.children, out);
            push_str(out, "</");
            push_str(out, self.tag.as_str());
            push_str(out, ">");
        }
    }

    /// The rendered form of this element.
    pub fn render(&self) -> (r: String)
        ensures
            r@ == render_element(*self),
    {
        let mut out = String::new();
        self.render_to(&mut out);
        assert(out@ =~= render_element(*self));
        out
    }
}

// ---------------------------------------------------------------------
// Attributes as a map from names to values
// ---------------------------------------------------------------------

/// What an attribute holds, as plain values.
pub enum AttrSpec {
    Value(Seq<char>),
    Boolean,
    List(Seq<Seq<char>>),
}

impl View for HtmlAttribute {
    type V = AttrSpec;

    open spec fn view(&self) -> AttrSpec {
        match self {
            HtmlAttribute::Value(v) => AttrSpec::Value(v@),
            HtmlAttribute::Boolean => AttrSpec::Boolean,
            HtmlAttribute::List(l) => AttrSpec::List(l@.map_values(|s: String| s@)),
        }
    }
}

/// The attributes of a list, as plain values, in order.
pub open spec fn attrs_view(s: Seq<(String, HtmlAttribute)>) -> Seq<(Seq<char>, AttrSpec)> {
    s.map_values(|p: (String, HtmlAttribute)| (p.0@, p.1@))
}

/// The position of the last attribute named `k`, or -1 if there is none.
pub open spec fn key_index(m: Seq<(Seq<char>, AttrSpec)>, k: Seq<char>) -> int
    decreases m.len(),
{
    if m.len() == 0 {
        -1
    } else if m.last().0 == k {
        m.len() - 1
    } else {
        key_index(m.drop_last(), k)
    }
}

/// `m` with `k` set to `v`: the entry named `k` takes the new value in its
/// place, or the pair is appended when `k` is new.
pub open spec fn put(m: Seq<(Seq<char>, AttrSpec)>, k: Seq<char>, v: AttrSpec) -> Seq<
    (Seq<char>, AttrSpec),
> {
    let i = key_index(m, k);
    if i >= 0 {
        m.update(i, (k, v))
    } else {
        m.push((k, v))
    }
}

/// The value of attribute `k` in `m`, if it is there.
pub open spec fn lookup(m: Seq<(Seq<char>, AttrSpec)>, k: Seq<char>) -> Option<AttrSpec> {
    let i = key_index(m, k);
    if i >= 0 {
        Some(m[i].1)
    } else {
        None
    }
}

/// No two attributes of `m` share a name.
pub open spec fn keys_unique(m: Seq<(Seq<char>, AttrSpec)>) -> bool {
    forall|i: int, j: int| 0 <= i < j < m.len() ==> m[i].0 != m[j].0
}

proof fn lemma_key_index(m: Seq<(Seq<char>, AttrSpec)>, k: Seq<char>)
    ensures
        -1 <= key_index(m, k) < m.len(),
        key_index(m, k) >= 0 ==> m[key_index(m, k)].0 == k,
        key_index(m, k) < 0 ==> forall|i: int| 0 <= i < m.len() ==> m[i].0 != k,
    decreases m.len(),
{
    if m.len() > 0 && m.last().0 != k {
        lemma_key_index(m.drop_last(), k);
        assert forall|i: int| 0 <= i < m.len() && key_index(m, k) < 0 implies m[i].0 != k by {
            if i < m.len() - 1 {
                assert(m.drop_last()[i] == m[i]);
            }
        }
    }
}

proof fn lemma_key_index_unique(m: Seq<(Seq<char>, AttrSpec)>, k: Seq<char>, i: int)
    requires
        keys_unique(m),
        0 <= i < m.len(),
        m[i].0 == k,
    ensures
        key_index(m, k) == i,
    decreases m.len(),
{
    if i < m.len() - 1 {
        assert(m.last().0 != k);
        lemma_key_index_unique(m.drop_last(), k, i);
    }
}

/// Setting an attribute keeps the names unique, and the attribute then holds
/// the value that was set.
pub proof fn lemma_put(m: Seq<(Seq<char>, AttrSpec)>, k: Seq<char>, v: AttrSpec)
    requires
        keys_unique(m),
    ensures
        keys_unique(put(m, k, v)),
        lookup(put(m, k, v), k) == Some(v),
{
    lemma_key_index(m, k);
    let r = put(m, k, v);
    let i = key_index(m, k);
    if i >= 0 {
        assert(keys_unique(r));
        lemma_key_index_unique(r, k, i);
    } else {
        assert(keys_unique(r));
        lemma_key_index_unique(r, k, m.len() as int);
    }
}

/// Finds the position of attribute `key`, or `attrs.len()` if it is absent.
fn find_attr(attrs: &Vec<(String, HtmlAttribute)>, key: &str) -> (r: usize)
    ensures
        key_index(attrs_view(attrs@), key@) >= 0 ==> r == key_index(attrs_view(attrs@), key@),
        key_index(attrs_view(attrs@), key@) < 0 ==> r == attrs@.len(),
{
    let ghost m = attrs_view(attrs@);
    let mut i: usize = attrs.len();
    assert(m.subrange(0, i as int) =~= m);
    while i > 0
        invariant
            i <= attrs@.len(),
            m == attrs_view(attrs@),
            key_index(m, key@) == key_index(m.subrange(0, i as int), key@),
        decreases i,
    {
        let ghost t = m.subrange(0, i as int);
        if str_eq(attrs[i - 1].0.as_str(), key) {
            assert(t.last().0 == key@);
            return i - 1;
        }
        assert(t.drop_last() =~= m.subrange(0, i - 1));
        i = i - 1;
    }
    assert(m.subrange(0, 0) =~= Seq::<(Seq<char>, AttrSpec)>::empty());
    attrs.len()
}

/// Sets attribute `key` of `attrs` to `value`.
fn put_attr(attrs: &mut Vec<(String, HtmlAttribute)>, key: &str, value: HtmlAttribute)
    ensures
        attrs_view(final(attrs)@) == put(attrs_view(old(attrs)@), key@, value@),
{
    let ghost m = attrs_view(attrs@);
    proof {
        lemma_key_index(m, key@);
    }
    let i = find_attr(attrs, key);
    let k = key.to_string();
    assert(k@ == key@);
    if i < attrs.len() {
        attrs.remove(i);
        attrs.insert(i, (k, value));
        assert(attrs_view(attrs@) =~= m.update(i as int, (key@, value@)));
    } else {
        attrs.push((k, value));
        assert(attrs_view(attrs@) =~= m.push((key@, value@)));
    }
}

// ---------------------------------------------------------------------
// Building elements
// ---------------------------------------------------------------------

/// `e` is a new element named `tag`: no attributes, no children, and marked
/// self-closing exactly when `closing` holds.
pub open spec fn is_fresh(e: HtmlElement, tag: Seq<char>, closing: bool) -> bool {
    e.tag@ == tag && e.attributes@.len() == 0 && e.children@.len() == 0 && e.self_closing
        == closing
}

/// `r` differs from `e` at most in its attributes.
pub open spec fn same_but_attrs(r: HtmlElement, e: HtmlElement) -> bool {
    r.tag == e.tag && r.children == e.children && r.self_closing == e.self_closing
}

/// `r` differs from `e` at most in its children.
pub open spec fn same_but_children(r: HtmlElement, e: HtmlElement) -> bool {
    r.tag == e.tag && r.attributes == e.attributes && r.self_closing == e.self_closing
}

/// The attributes `m` after one more class `c` was added: appended with a
/// space to a plain class value, pushed onto a class list, or set as the
/// class value otherwise.
pub open spec fn add_class(m: Seq<(Seq<char>, AttrSpec)>, c: Seq<char>) -> Seq<
    (Seq<char>, AttrSpec),
> {
    match lookup(m, "class"@) {
        Some(AttrSpec::Value(e)) => put(m, "class"@, AttrSpec::Value(e + " "@ + c)),
        Some(AttrSpec::List(l)) => put(m, "class"@, AttrSpec::List(l.push(c))),
        _ => put(m, "class"@, AttrSpec::Value(c)),
    }
}

/// Adding a class keeps the attribute names unique.
pub proof fn lemma_add_class(m: Seq<(Seq<char>, AttrSpec)>, c: Seq<char>)
    requires
        keys_unique(m),
    ensures
        keys_unique(add_class(m, c)),
{
    match lookup(m, "class"@) {
        Some(AttrSpec::Value(e)) => lemma_put(m, "class"@, AttrSpec::Value(e + " "@ + c)),
        Some(AttrSpec::List(l)) => lemma_put(m, "class"@, AttrSpec::List(l.push(c))),
        _ => lemma_put(m, "class"@, AttrSpec::Value(c)),
    }
}

/// The views of several string slices.
pub open spec fn strs_view(v: Seq<&str>) -> Seq<Seq<char>> {
    v.map_values(|s: &str| s@)
}

impl HtmlElement {
    /// A new element named `tag`.
    pub fn new(tag: &str) -> (r: Self)
        ensures
            is_fresh(r, tag@, false),
    {
        HtmlElement {
            tag: tag.to_string(),
            attributes: Vec::new(),
            children: Vec::new(),
            self_closing: false,
        }
    }

    /// A new element named `tag`, marked self-closing.
    pub fn self_closing(tag: &str) -> (r: Self)
        ensures
            is_fresh(r, tag@, true),
    {
        HtmlElement {
            tag: tag.to_string(),
            attributes: Vec::new(),
            children: Vec::new(),
            self_closing: true,
        }
    }

    /// Sets attribute `key` to `value`.
    pub fn attr(self, key: &str, value: &str) -> (r: Self)
        ensures
            keys_unique(attrs_view(self.attributes@)) ==> keys_unique(attrs_view(r.attributes@)),
            same_but_attrs(r, self),
            attrs_view(r.attributes@) == put(
                attrs_view(self.attributes@),
                key@,
                AttrSpec::Value(value@),
            ),
    {
        let mut e = self;
        let v = HtmlAttribute::Value(value.to_string());
        proof {
            if keys_unique(attrs_view(self.attributes@)) {
                lemma_put(attrs_view(self.attributes@), key@, v@);
            }
        }
        put_attr(&mut e.attributes, key, v);
        e
    }

    /// Sets boolean attribute `key`.
    pub fn bool_attr(self, key: &str) -> (r: Self)
        ensures
            keys_unique(attrs_view(self.attributes@)) ==> keys_unique(attrs_view(r.attributes@)),
            same_but_attrs(r, self),
            attrs_view(r.attributes@) == put(attrs_view(self.attributes@), key@, AttrSpec::Boolean),
    {
        let mut e = self;
        proof {
            if keys_unique(attrs_view(self.attributes@)) {
                lemma_put(attrs_view(self.attributes@), key@, AttrSpec::Boolean);
            }
        }
        put_attr(&mut e.attributes, key, HtmlAttribute::Boolean);
        e
    }

    /// Adds class `class` to the `class` attribute.
    pub fn class(self, class: &str) -> (r: Self)
        ensures
            keys_unique(attrs_view(self.attributes@)) ==> keys_unique(attrs_view(r.attributes@)),
            same_but_attrs(r, self),
            attrs_view(r.attributes@) == add_class(attrs_view(self.attributes@), class@),
    {
        let mut e = self;
        let ghost m = attrs_view(e.attributes@);
        proof {
            lemma_key_index(m, "class"@);
        }
        let i = find_attr(&e.attributes, "class");
        if i < e.attributes.len() {
            let (k, v) = e.attributes.remove(i);
            let value = match v {
                HtmlAttribute::Value(old_value) => {
                    let mut joined = old_value;
                    push_str(&mut joined, " ");
                    push_str(&mut joined, class);
                    HtmlAttribute::Value(joined)
                },
                HtmlAttribute::List(list) => {
                    let mut list = list;
                    list.push(class.to_string());
                    assert(list@.map_values(|s: String| s@) =~= m[i as int].1->List_0.push(class@));
                    HtmlAttribute::List(list)
                },
                HtmlAttribute::Boolean => HtmlAttribute::Value(class.to_string()),
            };
            e.attributes.insert(i, (k, value));
            assert(attrs_view(e.attributes@) =~= add_class(m, class@));
        } else {
            e.attributes.push(("class".to_string(), HtmlAttribute::Value(class.to_string())));
            assert(attrs_view(e.attributes@) =~= add_class(m, class@));
        }
        proof {
            if keys_unique(m) {
                lemma_add_class(m, class@);
            }
        }
        e
    }

    /// Sets the `class` attribute to the list `classes`; nothing changes when
    /// the list is empty.
    pub fn classes(self, classes: Vec<&str>) -> (r: Self)
        ensures
            keys_unique(attrs_view(self.attributes@)) ==> keys_unique(attrs_view(r.attributes@)),
            same_but_attrs(r, self),
            classes@.len() == 0 ==> r.attributes == self.attributes,
            classes@.len() > 0 ==> attrs_view(r.attributes@) == put(
                attrs_view(self.attributes@),
                "class"@,
                AttrSpec::List(strs_view(classes@)),
            ),
    {
        let mut e = self;
        if classes.len() > 0 {
            let mut list: Vec<String> = Vec::new();
            let mut i: usize = 0;
            while i < classes.len()
                invariant
                    i <= classes@.len(),
                    list@.map_values(|s: String| s@) == strs_view(classes@.subrange(0, i as int)),
                decreases classes@.len() - i,
            {
                let c: &str = classes[i];
                let owned = c.to_string();
                let ghost before = list@;
                list.push(owned);
                proof {
                    assert(owned@ == c@);
                    assert(c == classes@[i as int]);
                    assert(list@.map_values(|s: String| s@) =~= before.map_values(|s: String| s@).push(c@));
                    assert(strs_view(classes@.subrange(0, i + 1)) =~= strs_view(classes@.subrange(0, i as int)).push(c@));
                }
                i = i + 1;
                assert(list@.map_values(|s: String| s@) =~= strs_view(
                    classes@.subrange(0, i as int),
                ));
            }
            assert(classes@.subrange(0, classes@.len() as int) =~= classes@);
            let v = HtmlAttribute::List(list);
            proof {
                if keys_unique(attrs_view(self.attributes@)) {
                    lemma_put(attrs_view(self.attributes@), "class"@, v@);
                }
            }
            put_attr(&mut e.attributes, "class", v);
        }
        e
    }

    /// Sets the `id` attribute.
    pub fn id(self, id: &str) -> (r: Self)
        ensures
            keys_unique(attrs_view(self.attributes@)) ==> keys_unique(attrs_view(r.attributes@)),
            same_but_attrs(r, self),
            attrs_view(r.attributes@) == put(attrs_view(self.attributes@), "id"@, AttrSpec::Value(id@)),
    {
        let mut e = self;
        let v = HtmlAttribute::Value(id.to_string());
        proof {
            if keys_unique(attrs_view(self.attributes@)) {
                lemma_put(attrs_view(self.attributes@), "id"@, v@);
            }
        }
        put_attr(&mut e.attributes, "id", v);
        e
    }

    /// Appends a child.
    pub fn child(self, child: Html) -> (r: Self)
        ensures
            same_but_children(r, self),
            r.children@ == self.children@.push(child),
    {
        let mut e = self;
        e.children.push(child);
        e
    }

    /// Appends several children, in order.
    pub fn children(self, children: Vec<Html>) -> (r: Self)
        ensures
            same_but_children(r, self),
            r.children@ == self.children@ + children@,
    {
        let mut e = self;
        let mut more = children;
        e.children.append(&mut more);
        e
    }

    /// Appends a text child.
    pub fn text(self, text: &str) -> (r: Self)
        ensures
            same_but_children(r, self),
            r.children@.len() == self.children@.len() + 1,
            r.children@.drop_last() == self.children@,
            r.children@.last() is Text,
            r.children@.last()->Text_0@ == text@,
    {
        let mut e = self;
        e.children.push(Html::Text(text.to_string()));
        assert(e.children@.drop_last() =~= self.children@);
        e
    }

    /// Appends a raw markup child.
    pub fn raw(self, html: &str) -> (r: Self)
        ensures
            same_but_children(r, self),
            r.children@.len() == self.children@.len() + 1,
            r.children@.drop_last() == self.children@,
            r.children@.last() is Raw,
            r.children@.last()->Raw_0@ == html@,
    {
        let mut e = self;
        e.children.push(Html::Raw(html.to_string()));
        assert(e.children@.drop_last() =~= self.children@);
        e
    }

    /// Whether the element has children.
    pub fn has_children(&self) -> (r: bool)
        ensures
            r == (self.children@.len() > 0),
    {
        self.children.len() > 0
    }
}

// ---------------------------------------------------------------------
// Emptiness and text content
// ---------------------------------------------------------------------

/// Whether a node renders as nothing worth wrapping: `Empty`, an empty text
/// or raw string, or a fragment whose children are all empty. An element is
/// never empty.
pub open spec fn is_empty_node(h: Html) -> bool
    decreases h, 1nat,
{
    match h {
        Html::Empty => true,
        Html::Text(t) => t@.len() == 0,
        Html::Raw(r) => r@.len() == 0,
        Html::Fragment(c) => all_empty(c@),
        Html::Element(_) => false,
    }
}

/// Whether every node of `s` is empty.
pub open spec fn all_empty(s: Seq<Html>) -> bool
    decreases s, 0nat,
{
    if s.len() == 0 {
        true
    } else {
        all_empty(s.subrange(0, s.len() - 1)) && is_empty_node(s[s.len() - 1])
    }
}

/// The text of a node without its markup: text nodes in order, raw markup
/// left out.
pub open spec fn text_of(h: Html) -> Seq<char>
    decreases h, 1nat,
{
    match h {
        Html::Text(t) => t@,
        Html::Raw(_) => Seq::empty(),
        Html::Element(e) => texts_of(e.children@),
        Html::Fragment(c) => texts_of(c@),
        Html::Empty => Seq::empty(),
    }
}

/// The texts of several nodes, concatenated in order.
pub open spec fn texts_of(s: Seq<Html>) -> Seq<char>
    decreases s, 0nat,
{
    if s.len() == 0 {
        Seq::empty()
    } else {
        texts_of(s.subrange(0, s.len() - 1)) + text_of(s[s.len() - 1])
    }
}

impl Html {
    /// A text node.
    pub fn text(content: &str) -> (r: Html)
        ensures
            r is Text,
            r->Text_0@ == content@,
    {
        Html::Text(content.to_string())
    }

    /// A raw markup node.
    pub fn raw(content: &str) -> (r: Html)
        ensures
            r is Raw,
            r->Raw_0@ == content@,
    {
        Html::Raw(content.to_string())
    }

    /// A new element named `tag`.
    pub fn element(tag: &str) -> (r: HtmlElement)
        ensures
            is_fresh(r, tag@, false),
    {
        HtmlElement::new(tag)
    }

    /// A fragment of `children`, in order.
    pub fn fragment(children: Vec<Html>) -> (r: Html)
        ensures
            r == Html::Fragment(children),
    {
        Html::Fragment(children)
    }

    /// The empty node.
    pub fn empty() -> (r: Html)
        ensures
            r is Empty,
    {
        Html::Empty
    }

    /// Whether the node is empty; see `is_empty_node`.
    pub fn is_empty(&self) -> (r: bool)
        ensures
            r == is_empty_node(*self),
        decreases self,
    {
        match self {
            Html::Empty => true,
            Html::Text(t) => t.as_str().unicode_len() == 0,
            Html::Raw(h) => h.as_str().unicode_len() == 0,
            Html::Fragment(children) => all_children_empty(children),
            Html::Element(_) => false,
        }
    }

    /// The text of the node without markup; see `text_of`.
    pub fn text_content(&self) -> (r: String)
        ensures
            r@ == text_of(*self),
        decreases self,
    {
        match self {
            Html::Text(t) => t.clone(),
            Html::Raw(_) => String::new(),
            Html::Element(e) => texts_of_all(&e.children),
            Html::Fragment(children) => texts_of_all(children),
            Html::Empty => String::new(),
        }
    }
}

/// Whether every node of `children` is empty.
fn all_children_empty(children: &Vec<Html>) -> (r: bool)
    ensures
        r == all_empty(children@),
    decreases children,
{
    let mut i: usize = 0;
    let mut all = true;
    while i < children.len()
        invariant
            i <= children@.len(),
            all == all_empty(children@.subrange(0, i as int)),
        decreases children@.len() - i,
    {
        proof {
            assert(decreases_to!(children => children[i as int]));
        }
        let e = children[i].is_empty();
        all = all && e;
        proof {
            let t = children@.subrange(0, i + 1);
            assert(t.subrange(0, t.len() - 1) =~= children@.subrange(0, i as int));
        }
        i = i + 1;
    }
    assert(children@.subrange(0, children@.len() as int) =~= children@);
    all
}

/// The texts of `children`, concatenated in order.
fn texts_of_all(children: &Vec<Html>) -> (r: String)
    ensures
        r@ == texts_of(children@),
    decreases children,
{
    let mut out = String::new();
    let mut i: usize = 0;
    while i < children.len()
        invariant
            i <= children@.len(),
            out@ == texts_of(children@.subrange(0, i as int)),
        decreases children@.len() - i,
    {
        proof {
            assert(decreases_to!(children => children[i as int]));
        }
        let t = children[i].text_content();
        push_str(&mut out, t.as_str());
        proof {
            let s = children@.subrange(0, i + 1);
            assert(s.subrange(0, s.len() - 1) =~= children@.subrange(0, i as int));
        }
        i = i + 1;
    }
    assert(children@.subrange(0, children@.len() as int) =~= children@);
    out
}

// ---------------------------------------------------------------------
// Shorthands
// ---------------------------------------------------------------------

/// A new `html` element.
pub fn html() -> (r: HtmlElement)
    ensures
        is_fresh(r, "html"@, false),
{
    HtmlElement::new("html")
}

/// A new `head` element.
pub fn head() -> (r: HtmlElement)
    ensures
        is_fresh(r, "head"@, false),
{
    HtmlElement::new("head")
}

/// A new `body` element.
pub fn body() -> (r: HtmlElement)
    ensures
        is_fresh(r, "body"@, false),
{
    HtmlElement::new("body")
}

/// A new `div` element.
pub fn div() -> (r: HtmlElement)
    ensures
        is_fresh(r, "div"@, false),
{
    HtmlElement::new("div")
}

/// A new `p` element.
pub fn p() -> (r: HtmlElement)
    ensures
        is_fresh(r, "p"@, false),
{
    HtmlElement::new("p")
}

/// A new `h1` element.
pub fn h1() -> (r: HtmlElement)
    ensures
        is_fresh(r, "h1"@, false),
{
    HtmlElement::new("h1")
}

/// A new `h2` element.
pub fn h2() -> (r: HtmlElement)
    ensures
        is_fresh(r, "h2"@, false),
{
    HtmlElement::new("h2")
}

/// A new `h3` element.
pub fn h3() -> (r: HtmlElement)
    ensures
        is_fresh(r, "h3"@, false),
{
    HtmlElement::new("h3")
}

/// A new `h4` element.
pub fn h4() -> (r: HtmlElement)
    ensures
        is_fresh(r, "h4"@, false),
{
    HtmlElement::new("h4")
}

/// A new `h5` element.
pub fn h5() -> (r: HtmlElement)
    ensures
        is_fresh(r, "h5"@, false),
{
    HtmlElement::new("h5")
}

/// A new `h6` element.
pub fn h6() -> (r: HtmlElement)
    ensures
        is_fresh(r, "h6"@, false),
{
    HtmlElement::new("h6")
}

/// A new `span` element.
pub fn span() -> (r: HtmlElement)
    ensures
        is_fresh(r, "span"@, false),
{
    HtmlElement::new("span")
}

/// A new `a` element.
pub fn a() -> (r: HtmlElement)
    ensures
        is_fresh(r, "a"@, false),
{
    HtmlElement::new("a")
}

/// A new `img` element, marked self-closing.
pub fn img() -> (r: HtmlElement)
    ensures
        is_fresh(r, "img"@, true),
{
    HtmlElement::self_closing("img")
}

/// A new `br` element, marked self-closing.
pub fn br() -> (r: HtmlElement)
    ensures
        is_fresh(r, "br"@, true),
{
    HtmlElement::self_closing("br")
}

/// A new `hr` element, marked self-closing.
pub fn hr() -> (r: HtmlElement)
    ensures
        is_fresh(r, "hr"@, true),
{
    HtmlElement::self_closing("hr")
}

/// A new `input` element, marked self-closing.
pub fn input() -> (r: HtmlElement)
    ensures
        is_fresh(r, "input"@, true),
{
    HtmlElement::self_closing("input")
}

/// A new `button` element.
pub fn button() -> (r: HtmlElement)
    ensures
        is_fresh(r, "button"@, false),
{
    HtmlElement::new("button")
}

/// A new `form` element.
pub fn form() -> (r: HtmlElement)
    ensures
        is_fresh(r, "form"@, false),
{
    HtmlElement::new("form")
}

/// A new `ul` element.
pub fn ul() -> (r: HtmlElement)
    ensures
        is_fresh(r, "ul"@, false),
{
    HtmlElement::new("ul")
}

/// A new `ol` element.
pub fn ol() -> (r: HtmlElement)
    ensures
        is_fresh(r, "ol"@, false),
{
    HtmlElement::new("ol")
}

/// A new `li` element.
pub fn li() -> (r: HtmlElement)
    ensures
        is_fresh(r, "li"@, false),
{
    HtmlElement::new("li")
}

/// A new `table` element.
pub fn table() -> (r: HtmlElement)
    ensures
        is_fresh(r, "table"@, false),
{
    HtmlElement::new("table")
}

/// A new `tr` element.
pub fn tr() -> (r: HtmlElement)
    ensures
        is_fresh(r, "tr"@, false),
{
    HtmlElement::new("tr")
}

/// A new `td` element.
pub fn td() -> (r: HtmlElement)
    ensures
        is_fresh(r, "td"@, false),
{
    HtmlElement::new("td")
}

/// A new `th` element.
pub fn th() -> (r: HtmlElement)
    ensures
        is_fresh(r, "th"@, false),
{
    HtmlElement::new("th")
}

/// A new `thead` element.
pub fn thead() -> (r: HtmlElement)
    ensures
        is_fresh(r, "thead"@, false),
{
    HtmlElement::new("thead")
}

/// A new `tbody` element.
pub fn tbody() -> (r: HtmlElement)
    ensures
        is_fresh(r, "tbody"@, false),
{
    HtmlElement::new("tbody")
}

/// A new `section` element.
pub fn section() -> (r: HtmlElement)
    ensures
        is_fresh(r, "section"@, false),
{
    HtmlElement::new("section")
}

/// A new `article` element.
pub fn article() -> (r: HtmlElement)
    ensures
        is_fresh(r, "article"@, false),
{
    HtmlElement::new("article")
}

/// A new `nav` element.
pub fn nav() -> (r: HtmlElement)
    ensures
        is_fresh(r, "nav"@, false),
{
    HtmlElement::new("nav")
}

/// A new `header` element.
pub fn header() -> (r: HtmlElement)
    ensures
        is_fresh(r, "header"@, false),
{
    HtmlElement::new("header")
}

/// A new `footer` element.
pub fn footer() -> (r: HtmlElement)
    ensures
        is_fresh(r, "footer"@, false),
{
    HtmlElement::new("footer")
}

/// A new `aside` element.
pub fn aside() -> (r: HtmlElement)
    ensures
        is_fresh(r, "aside"@, false),
{
    HtmlElement::new("aside")
}

/// A text node.
pub fn text(content: &str) -> (r: Html)
    ensures
        r is Text,
        r->Text_0@ == content@,
{
    Html::text(content)
}

/// A raw markup node.
pub fn raw(content: &str) -> (r: Html)
    ensures
        r is Raw,
        r->Raw_0@ == content@,
{
    Html::raw(content)
}

/// A fragment of `children`, in order.
pub fn fragment(children: Vec<Html>) -> (r: Html)
    ensures
        r == Html::Fragment(children),
{
    Html::fragment(children)
}

impl HtmlElement {
    /// Sets attribute `name` to `value` when `condition` holds; otherwise
    /// the element is unchanged.
    pub fn attr_if(self, name: &str, condition: bool, value: &str) -> (r: Self)
        ensures
            keys_unique(attrs_view(self.attributes@)) ==> keys_unique(attrs_view(r.attributes@)),
            same_but_attrs(r, self),
            condition ==> attrs_view(r.attributes@) == put(
                attrs_view(self.attributes@),
                name@,
                AttrSpec::Value(value@),
            ),
            !condition ==> r.attributes == self.attributes,
    {
        if condition {
            self.attr(name, value)
        } else {
            self
        }
    }
}

// ---------------------------------------------------------------------
// Laws
// ---------------------------------------------------------------------

/// An element whose tag lower-cases to `img` renders self-closing, with its
/// attributes and without children or closing tag, whatever children it
/// holds.
pub proof fn lemma_img_self_closing(e: HtmlElement)
    requires
        lower_of(e.tag@) == "img"@,
    ensures
        render_element(e) == "<"@ + e.tag@ + render_attrs(e.attributes@) + " />"@,
{
    assert(is_void_tag(e.tag@));
}

/// A conditional attribute that was absent is present after `attr_if`
/// exactly when its guard holds, and then holds the given value.
pub proof fn lemma_conditional_attribute(
    m: Seq<(Seq<char>, AttrSpec)>,
    name: Seq<char>,
    value: Seq<char>,
    condition: bool,
)
    requires
        keys_unique(m),
        lookup(m, name) is None,
    ensures
        ({
            let r = if condition {
                put(m, name, AttrSpec::Value(value))
            } else {
                m
            };
            &&& (lookup(r, name) is Some) == condition
            &&& condition ==> lookup(r, name) == Some(AttrSpec::Value(value))
        }),
{
    lemma_put(m, name, AttrSpec::Value(value));
}

/// `Empty` is empty and renders to nothing.
pub proof fn lemma_empty_node()
    ensures
        is_empty_node(Html::Empty),
        render_node(Html::Empty) == Seq::<char>::empty(),
{
}

/// Text is rendered escaped and raw markup as it is.
pub proof fn lemma_text_and_raw(t: String)
    ensures
        render_node(Html::Text(t)) == escape_text(t@),
        render_node(Html::Raw(t)) == t@,
{
}

} // verus!
