//! The template language as a grammar: what each parsing step reads from a
//! position of the input, as plain values. A step either yields a value and
//! the position after it, or the position where the input breaks the
//! grammar. Repeated and nested steps are taken only from later positions;
//! the guards that say so never fail on the positions the steps produce, and
//! keep the definitions well founded.
use vstd::prelude::*;
use crate::parser::{
    after_attr_name, after_ident, after_space, holds_at, is_ident_start, keyword_at, literal_rest,
    stops_at, text_stops_at, type_stops_at, Attribute, AttributeValue, ComponentDef, ImportDef,
    MatchArm, ParamDef, PropDef, PropValue, RuitlFile, TemplateAst, TemplateDef,
};
use crate::text::trim;

verus! {

// ---------------------------------------------------------------------
// The syntax tree as plain values
// ---------------------------------------------------------------------

/// How an attribute value is given, as plain values.
pub enum AttrValueV {
    Static(Seq<char>),
    Expression(Seq<char>),
    Conditional(Seq<char>),
}

/// An attribute, as plain values.
pub struct AttributeV {
    pub name: Seq<char>,
    pub value: AttrValueV,
}

/// A property handed to an invoked component, as plain values.
pub struct PropValueV {
    pub name: Seq<char>,
    pub value: Seq<char>,
}

/// A node of a template body, as plain values.
pub enum AstV {
    Element { tag: Seq<char>, attributes: Seq<AttributeV>, children: Seq<AstV>, self_closing: bool },
    Text(Seq<char>),
    Expression(Seq<char>),
    If { condition: Seq<char>, then_branch: Box<AstV>, else_branch: Option<Box<AstV>> },
    For { variable: Seq<char>, iterable: Seq<char>, body: Box<AstV> },
    Match { expression: Seq<char>, arms: Seq<MatchArmV> },
    Component { name: Seq<char>, props: Seq<PropValueV> },
    Fragment(Seq<AstV>),
    Raw(Seq<char>),
}

/// A match arm, as plain values.
pub struct MatchArmV {
    pub pattern: Seq<char>,
    pub body: AstV,
}

/// A property of a component, as plain values.
pub struct PropDefV {
    pub name: Seq<char>,
    pub prop_type: Seq<char>,
    pub optional: bool,
    pub default_value: Option<Seq<char>>,
}

/// A component, as plain values.
pub struct ComponentDefV {
    pub name: Seq<char>,
    pub props: Seq<PropDefV>,
}

/// A template parameter, as plain values.
pub struct ParamDefV {
    pub name: Seq<char>,
    pub param_type: Seq<char>,
}

/// A template, as plain values.
pub struct TemplateDefV {
    pub name: Seq<char>,
    pub params: Seq<ParamDefV>,
    pub body: AstV,
}

/// An import, as plain values.
pub struct ImportDefV {
    pub path: Seq<char>,
    pub items: Seq<Seq<char>>,
}

/// A parsed file, as plain values.
#[verifier::ext_equal]
pub struct FileV {
    pub components: Seq<ComponentDefV>,
    pub templates: Seq<TemplateDefV>,
    pub imports: Seq<ImportDefV>,
}

/// Strings as plain values.
pub open spec fn strs_v(s: Seq<String>) -> Seq<Seq<char>> {
    s.map_values(|x: String| x@)
}

/// An attribute as plain values.
pub open spec fn attr_v(a: Attribute) -> AttributeV {
    AttributeV {
        name: a.name@,
        value: match a.value {
            AttributeValue::Static(v) => AttrValueV::Static(v@),
            AttributeValue::Expression(v) => AttrValueV::Expression(v@),
            AttributeValue::Conditional(v) => AttrValueV::Conditional(v@),
        },
    }
}

/// Several attributes as plain values.
pub open spec fn attrs_v(s: Seq<Attribute>) -> Seq<AttributeV> {
    s.map_values(|a: Attribute| attr_v(a))
}

/// Several invocation properties as plain values.
pub open spec fn prop_values_v(s: Seq<PropValue>) -> Seq<PropValueV> {
    s.map_values(|p: PropValue| PropValueV { name: p.name@, value: p.value@ })
}

/// A node as plain values.
pub open spec fn ast_v(n: TemplateAst) -> AstV
    decreases n, 1nat,
{
    match n {
        TemplateAst::Element { tag, attributes, children, self_closing } => AstV::Element {
            tag: tag@,
            attributes: attrs_v(attributes@),
            children: nodes_v(children@),
            self_closing,
        },
        TemplateAst::Text(t) => AstV::Text(t@),
        TemplateAst::Expression(e) => AstV::Expression(e@),
        TemplateAst::If { condition, then_branch, else_branch } => AstV::If {
            condition: condition@,
            then_branch: Box::new(ast_v(*then_branch)),
            else_branch: match else_branch {
                Some(b) => Some(Box::new(ast_v(*b))),
                None => None,
            },
        },
        TemplateAst::For { variable, iterable, body } => AstV::For {
            variable: variable@,
            iterable: iterable@,
            body: Box::new(ast_v(*body)),
        },
        TemplateAst::Match { expression, arms } => AstV::Match {
            expression: expression@,
            arms: arms_v(arms@),
        },
        TemplateAst::Component { name, props } => AstV::Component {
            name: name@,
            props: prop_values_v(props@),
        },
        TemplateAst::Fragment(nodes) => AstV::Fragment(nodes_v(nodes@)),
        TemplateAst::Raw(r) => AstV::Raw(r@),
    }
}

/// Several nodes as plain values.
pub open spec fn nodes_v(s: Seq<TemplateAst>) -> Seq<AstV>
    decreases s, 0nat,
{
    if s.len() == 0 {
        Seq::empty()
    } else {
        nodes_v(s.subrange(0, s.len() - 1)).push(ast_v(s[s.len() - 1]))
    }
}

pub proof fn lemma_nodes_v(s: Seq<TemplateAst>)
    ensures
        nodes_v(s).len() == s.len(),
        forall|i: int| 0 <= i < s.len() ==> nodes_v(s)[i] == ast_v(#[trigger] s[i]),
    decreases s.len(),
{
    if s.len() > 0 {
        lemma_nodes_v(s.subrange(0, s.len() - 1));
        assert forall|i: int| 0 <= i < s.len() implies nodes_v(s)[i] == ast_v(#[trigger] s[i]) by {
            if i < s.len() - 1 {
                assert(s.subrange(0, s.len() - 1)[i] == s[i]);
            }
        }
    }
}

pub proof fn lemma_nodes_v_push(s: Seq<TemplateAst>, x: TemplateAst)
    ensures
        nodes_v(s.push(x)) == nodes_v(s).push(ast_v(x)),
{
    assert(s.push(x).subrange(0, s.len() as int) =~= s);
}

pub proof fn lemma_arms_v_len(s: Seq<MatchArm>)
    ensures
        arms_v(s).len() == s.len(),
    decreases s.len(),
{
    if s.len() > 0 {
        lemma_arms_v_len(s.subrange(0, s.len() - 1));
    }
}

pub proof fn lemma_arms_v_push(s: Seq<MatchArm>, x: MatchArm)
    ensures
        arms_v(s.push(x)) == arms_v(s).push(MatchArmV { pattern: x.pattern@, body: ast_v(x.body) }),
{
    assert(s.push(x).subrange(0, s.len() as int) =~= s);
}

/// Several match arms as plain values.
pub open spec fn arms_v(s: Seq<MatchArm>) -> Seq<MatchArmV>
    decreases s, 0nat,
{
    if s.len() == 0 {
        Seq::empty()
    } else {
        arms_v(s.subrange(0, s.len() - 1)).push(
            MatchArmV { pattern: s[s.len() - 1].pattern@, body: ast_v(s[s.len() - 1].body) },
        )
    }
}

/// A property as plain values.
pub open spec fn prop_def_v(p: PropDef) -> PropDefV {
    PropDefV {
        name: p.name@,
        prop_type: p.prop_type@,
        optional: p.optional,
        default_value: match p.default_value {
            Some(d) => Some(d@),
            None => None,
        },
    }
}

/// A component as plain values.
pub open spec fn component_v(c: ComponentDef) -> ComponentDefV {
    ComponentDefV { name: c.name@, props: c.props@.map_values(|p: PropDef| prop_def_v(p)) }
}

/// A parameter as plain values.
pub open spec fn param_v(p: ParamDef) -> ParamDefV {
    ParamDefV { name: p.name@, param_type: p.param_type@ }
}

/// A template as plain values.
pub open spec fn template_v(t: TemplateDef) -> TemplateDefV {
    TemplateDefV {
        name: t.name@,
        params: t.params@.map_values(|p: ParamDef| param_v(p)),
        body: ast_v(t.body),
    }
}

/// An import as plain values.
pub open spec fn import_v(i: ImportDef) -> ImportDefV {
    ImportDefV { path: i.path@, items: strs_v(i.items@) }
}

/// A parsed file as plain values.
pub open spec fn file_v(f: RuitlFile) -> FileV {
    FileV {
        components: f.components@.map_values(|c: ComponentDef| component_v(c)),
        templates: f.templates@.map_values(|t: TemplateDef| template_v(t)),
        imports: f.imports@.map_values(|i: ImportDef| import_v(i)),
    }
}

// ---------------------------------------------------------------------
// Scanning
// ---------------------------------------------------------------------

/// The first position from `j` on, below `n`, where `f` holds; `n` if none.
pub open spec fn scan_to(n: int, j: int, f: spec_fn(int) -> bool) -> int
    decreases n - j,
{
    if j >= n {
        n
    } else if f(j) {
        j
    } else {
        scan_to(n, j + 1, f)
    }
}

pub proof fn lemma_scan_to(n: int, j: int, e: int, f: spec_fn(int) -> bool)
    requires
        j <= e <= n,
        forall|k: int| j <= k < e ==> !#[trigger] f(k),
        e == n || f(e),
    ensures
        scan_to(n, j, f) == e,
    decreases e - j,
{
    if j < e {
        lemma_scan_to(n, j + 1, e, f);
    }
}

/// The first position of `s[a..]` where `f` holds is `e`, or none holds
/// and `e` is the end.
pub proof fn lemma_first_stop(s: Seq<char>, a: int, e: int, f: spec_fn(int) -> bool)
    requires
        crate::parser::first_stop(s, a, e, f),
    ensures
        scan_to(s.len() as int, a, f) == e,
{
    lemma_scan_to(s.len() as int, a, e, f);
}

/// Where a type that starts at `a` ends.
pub open spec fn type_stop(s: Seq<char>, a: int) -> spec_fn(int) -> bool {
    |j: int| type_stops_at(s, a, j)
}

/// Where an expression that starts at `a` ends.
pub open spec fn expr_stop(s: Seq<char>, a: int, terms: Seq<char>) -> spec_fn(int) -> bool {
    |j: int| stops_at(s, a, j, terms)
}

/// Where a run of text ends.
pub open spec fn text_stop(s: Seq<char>) -> spec_fn(int) -> bool {
    |j: int| text_stops_at(s, j)
}

/// Where the character `c` stands.
pub open spec fn char_stop(s: Seq<char>, c: char) -> spec_fn(int) -> bool {
    |j: int| s[j] == c
}

/// The character at `q` is `c`.
pub open spec fn at(s: Seq<char>, q: int, c: char) -> bool {
    0 <= q < s.len() && s[q] == c
}

/// One more item in front of a parsed list.
pub open spec fn cons<T>(x: T, r: Result<(Seq<T>, int), int>) -> Result<(Seq<T>, int), int> {
    match r {
        Ok((xs, e)) => Ok((seq![x] + xs, e)),
        Err(e) => Err(e),
    }
}

/// Several items in front of a parsed list.
pub open spec fn prepend_all<T>(xs: Seq<T>, r: Result<(Seq<T>, int), int>) -> Result<(Seq<T>, int), int> {
    match r {
        Ok((ys, e)) => Ok((xs + ys, e)),
        Err(e) => Err(e),
    }
}

pub proof fn lemma_prepend_cons<T>(xs: Seq<T>, x: T, r: Result<(Seq<T>, int), int>)
    ensures
        prepend_all(xs, cons(x, r)) == prepend_all(xs.push(x), r),
        prepend_all(Seq::<T>::empty(), r) == r,
{
    match r {
        Ok((ys, e)) => {
            assert(xs + (seq![x] + ys) =~= xs.push(x) + ys);
            assert(Seq::<T>::empty() + ys =~= ys);
        },
        Err(e) => {},
    }
}

/// An identifier at `p`, and the position after it.
pub open spec fn g_ident(s: Seq<char>, p: int) -> Result<(Seq<char>, int), int> {
    if 0 <= p < s.len() && is_ident_start(s[p]) {
        Ok((s.subrange(p, after_ident(s, p)), after_ident(s, p)))
    } else {
        Err(p)
    }
}

/// An attribute name at `p`, and the position after it.
pub open spec fn g_attr_name(s: Seq<char>, p: int) -> Result<(Seq<char>, int), int> {
    if 0 <= p < s.len() && is_ident_start(s[p]) {
        Ok((s.subrange(p, after_attr_name(s, p)), after_attr_name(s, p)))
    } else {
        Err(p)
    }
}

/// A string literal at `p`: its value and the position after it.
pub open spec fn g_string(s: Seq<char>, p: int) -> Result<(Seq<char>, int), int> {
    if at(s, p, '"') {
        match literal_rest(s, p + 1) {
            Some((v, e)) => Ok((v, e)),
            None => Err(s.len() as int),
        }
    } else {
        Err(p)
    }
}

/// A type at `p`, trimmed, and the position of the separator after it.
pub open spec fn g_type(s: Seq<char>, p: int) -> (Seq<char>, int) {
    let e = scan_to(s.len() as int, p, type_stop(s, p));
    (trim(s.subrange(p, e)), e)
}

/// An expression at `p` up to one of `terms`, trimmed, and the position of
/// that terminator.
pub open spec fn g_expr(s: Seq<char>, p: int, terms: Seq<char>) -> (Seq<char>, int) {
    let e = scan_to(s.len() as int, p, expr_stop(s, p, terms));
    (trim(s.subrange(p, e)), e)
}

/// A run of text at `p`.
pub open spec fn g_text(s: Seq<char>, p: int) -> (AstV, int) {
    let e = scan_to(s.len() as int, p, text_stop(s));
    let run = s.subrange(p, e);
    (AstV::Text(if trim(run).len() == 0 { Seq::empty() } else { run }), e)
}

/// A DOCTYPE declaration at `p`, through its `>`.
pub open spec fn g_doctype(s: Seq<char>, p: int) -> Result<(AstV, int), int> {
    let e = scan_to(s.len() as int, p + 1, char_stop(s, '>'));
    if e >= s.len() {
        Err(s.len() as int)
    } else {
        Ok((AstV::Text(s.subrange(p, e + 1)), e + 1))
    }
}

/// `{expr}` at `p`.
pub open spec fn g_expr_node(s: Seq<char>, p: int) -> Result<(AstV, int), int> {
    if !at(s, p, '{') {
        Err(p)
    } else {
        let (e, q) = g_expr(s, p + 1, seq!['}']);
        if at(s, q, '}') {
            Ok((AstV::Expression(e), q + 1))
        } else {
            Err(q)
        }
    }
}

/// An attribute at `p`.
pub open spec fn g_attribute(s: Seq<char>, p: int) -> Result<(AttributeV, int), int> {
    match g_attr_name(s, p) {
        Err(e) => Err(e),
        Ok((name, q)) => {
            let cond = at(s, q, '?');
            let q1 = if cond {
                q + 1
            } else {
                q
            };
            let q2 = after_space(s, q1);
            if !at(s, q2, '=') {
                Ok((AttributeV { name, value: AttrValueV::Static("true"@) }, q2))
            } else {
                let q3 = after_space(s, q2 + 1);
                if at(s, q3, '{') {
                    let (e, q4) = g_expr(s, q3 + 1, seq!['}']);
                    if at(s, q4, '}') {
                        let value = if cond {
                            AttrValueV::Conditional(e)
                        } else {
                            AttrValueV::Expression(e)
                        };
                        Ok((AttributeV { name, value }, q4 + 1))
                    } else {
                        Err(q4)
                    }
                } else {
                    match g_string(s, q3) {
                        Ok((v, q4)) => Ok((AttributeV { name, value: AttrValueV::Static(v) }, q4)),
                        Err(e) => Err(e),
                    }
                }
            }
        },
    }
}

/// The attributes of an opening tag from `q` on.
pub open spec fn g_attrs(s: Seq<char>, q: int) -> Result<(Seq<AttributeV>, int), int>
    decreases s.len() - q,
{
    if q >= s.len() || at(s, q, '>') || at(s, q, '/') {
        Ok((Seq::empty(), q))
    } else {
        match g_attribute(s, q) {
            Err(e) => Err(e),
            Ok((a, q1)) => {
                let q2 = after_space(s, q1);
                if q < q2 <= s.len() {
                    cons(a, g_attrs(s, q2))
                } else {
                    Err(q2)
                }
            },
        }
    }
}

/// The properties of an invocation from `q` on.
pub open spec fn g_prop_values(s: Seq<char>, q: int) -> Result<(Seq<PropValueV>, int), int>
    decreases s.len() - q,
{
    if q >= s.len() || at(s, q, ')') {
        Ok((Seq::empty(), q))
    } else {
        match g_ident(s, q) {
            Err(e) => Err(e),
            Ok((name, q0)) => {
                let q1 = after_space(s, q0);
                if !at(s, q1, ':') {
                    Err(q1)
                } else {
                    let (value, q3) = g_expr(s, after_space(s, q1 + 1), seq![',', ')']);
                    let q4 = after_space(s, q3);
                    let next: Result<int, int> = if at(s, q4, ',') {
                        Ok(after_space(s, q4 + 1))
                    } else if !at(s, q4, ')') {
                        Err(q4)
                    } else {
                        Ok(q4)
                    };
                    match next {
                        Err(e) => Err(e),
                        Ok(q5) => if q < q5 <= s.len() {
                            cons(PropValueV { name, value }, g_prop_values(s, q5))
                        } else {
                            Err(q5)
                        },
                    }
                }
            },
        }
    }
}

/// `@Name(...)` at `p`.
pub open spec fn g_invocation(s: Seq<char>, p: int) -> Result<(AstV, int), int> {
    if !at(s, p, '@') {
        Err(p)
    } else {
        match g_ident(s, p + 1) {
            Err(e) => Err(e),
            Ok((name, q0)) => {
                let q = after_space(s, q0);
                if !at(s, q, '(') {
                    Err(q)
                } else {
                    match g_prop_values(s, after_space(s, q + 1)) {
                        Err(e) => Err(e),
                        Ok((props, q2)) => if at(s, q2, ')') {
                            Ok((AstV::Component { name, props }, q2 + 1))
                        } else {
                            Err(q2)
                        },
                    }
                }
            },
        }
    }
}

/// The closing tag of `tag`.
pub open spec fn closing_tag(tag: Seq<char>) -> Seq<char> {
    "</"@ + tag + ">"@
}

/// One node of a template body at `p`.
pub open spec fn g_node(s: Seq<char>, p: int) -> Result<(AstV, int), int>
    decreases s.len() - p, 1nat,
{
    let q = after_space(s, p);
    let r = if !(p <= q <= s.len()) {
        Err(p)
    } else if at(s, q, '<') {
        if holds_at(s, q, "<!DOCTYPE"@) {
            g_doctype(s, q)
        } else {
            g_element(s, q)
        }
    } else if at(s, q, '{') {
        g_expr_node(s, q)
    } else if at(s, q, '@') {
        g_invocation(s, q)
    } else if keyword_at(s, q, "if"@) {
        if q + "if"@.len() > p {
            g_if(s, q + "if"@.len())
        } else {
            Err(q)
        }
    } else if keyword_at(s, q, "for"@) {
        if q + "for"@.len() > p {
            g_for(s, q + "for"@.len())
        } else {
            Err(q)
        }
    } else if keyword_at(s, q, "match"@) {
        if q + "match"@.len() > p {
            g_match(s, q + "match"@.len())
        } else {
            Err(q)
        }
    } else {
        Ok(g_text(s, q))
    };
    match r {
        Ok((n, e)) => if e == p {
            Err(e)
        } else {
            Ok((n, e))
        },
        Err(e) => Err(e),
    }
}

/// An element at `p`.
pub open spec fn g_element(s: Seq<char>, p: int) -> Result<(AstV, int), int>
    decreases s.len() - p, 0nat,
{
    if !at(s, p, '<') {
        Err(p)
    } else {
        match g_ident(s, p + 1) {
            Err(e) => Err(e),
            Ok((tag, q0)) => match g_attrs(s, after_space(s, q0)) {
                Err(e) => Err(e),
                Ok((attributes, q1)) => if at(s, q1, '/') {
                    if at(s, q1 + 1, '>') {
                        Ok(
                            (
                                AstV::Element {
                                    tag,
                                    attributes,
                                    children: Seq::empty(),
                                    self_closing: true,
                                },
                                q1 + 2,
                            ),
                        )
                    } else {
                        Err(q1 + 1)
                    }
                } else if !at(s, q1, '>') {
                    Err(q1)
                } else if q1 + 1 <= p {
                    Err(q1)
                } else {
                    match g_children(s, q1 + 1, tag) {
                        Err(e) => Err(e),
                        Ok((children, q2)) => {
                            let q3 = after_space(s, q2);
                            if holds_at(s, q3, closing_tag(tag)) {
                                Ok(
                                    (
                                        AstV::Element { tag, attributes, children, self_closing: false },
                                        q3 + closing_tag(tag).len(),
                                    ),
                                )
                            } else {
                                Err(q3)
                            }
                        },
                    }
                },
            },
        }
    }
}

/// The children of an element from `q` on, up to its closing tag.
pub open spec fn g_children(s: Seq<char>, q: int, tag: Seq<char>) -> Result<(Seq<AstV>, int), int>
    decreases s.len() - q, 2nat,
{
    if holds_at(s, after_space(s, q), closing_tag(tag)) || q >= s.len() {
        Ok((Seq::empty(), q))
    } else {
        match g_node(s, q) {
            Err(e) => Err(e),
            Ok((n, q1)) => if q < q1 <= s.len() {
                cons(n, g_children(s, q1, tag))
            } else {
                Err(q1)
            },
        }
    }
}

/// A template body at `p`: one node stands for itself, any other number
/// becomes a fragment.
pub open spec fn g_body(s: Seq<char>, p: int) -> Result<(AstV, int), int>
    decreases s.len() - p, 3nat,
{
    let q = after_space(s, p);
    if !(p <= q <= s.len()) {
        Err(p)
    } else {
        match g_nodes(s, q) {
            Err(e) => Err(e),
            Ok((ns, q1)) => if ns.len() == 1 {
                Ok((ns[0], q1))
            } else {
                Ok((AstV::Fragment(ns), q1))
            },
        }
    }
}

/// The nodes of a body from `q` on, up to `}` or the end.
pub open spec fn g_nodes(s: Seq<char>, q: int) -> Result<(Seq<AstV>, int), int>
    decreases s.len() - q, 2nat,
{
    if q >= s.len() || at(s, q, '}') {
        Ok((Seq::empty(), q))
    } else {
        match g_node(s, q) {
            Err(e) => Err(e),
            Ok((n, q1)) => {
                let q2 = after_space(s, q1);
                if q < q2 <= s.len() {
                    cons(n, g_nodes(s, q2))
                } else {
                    Err(q2)
                }
            },
        }
    }
}

/// `{ body }` after white space at `p`.
pub open spec fn g_block(s: Seq<char>, p: int) -> Result<(AstV, int), int>
    decreases s.len() - p, 4nat,
{
    let q = after_space(s, p);
    if !at(s, q, '{') {
        Err(q)
    } else if q + 1 <= p {
        Err(q)
    } else {
        match g_body(s, q + 1) {
            Err(e) => Err(e),
            Ok((b, q1)) => if at(s, q1, '}') {
                Ok((b, q1 + 1))
            } else {
                Err(q1)
            },
        }
    }
}

/// The rest of an `if` at `p`.
pub open spec fn g_if(s: Seq<char>, p: int) -> Result<(AstV, int), int>
    decreases s.len() - p, 5nat,
{
    let (condition, q1) = g_expr(s, after_space(s, p), seq!['{']);
    if q1 < p || q1 > s.len() {
        Err(q1)
    } else {
        match g_block(s, q1) {
            Err(e) => Err(e),
            Ok((t, q2)) => {
                let q3 = after_space(s, q2);
                if keyword_at(s, q3, "else"@) && q3 + "else"@.len() > p {
                    match g_block(s, q3 + "else"@.len()) {
                        Err(e) => Err(e),
                        Ok((e, q4)) => Ok(
                            (
                                AstV::If {
                                    condition,
                                    then_branch: Box::new(t),
                                    else_branch: Some(Box::new(e)),
                                },
                                q4,
                            ),
                        ),
                    }
                } else {
                    Ok((AstV::If { condition, then_branch: Box::new(t), else_branch: None }, q3))
                }
            },
        }
    }
}

/// The rest of a `for` at `p`.
pub open spec fn g_for(s: Seq<char>, p: int) -> Result<(AstV, int), int>
    decreases s.len() - p, 5nat,
{
    match g_ident(s, after_space(s, p)) {
        Err(e) => Err(e),
        Ok((variable, q0)) => {
            let q1 = after_space(s, q0);
            if !keyword_at(s, q1, "in"@) {
                Err(q1)
            } else {
                let (iterable, q3) = g_expr(s, after_space(s, q1 + "in"@.len()), seq!['{']);
                if q3 < p || q3 > s.len() {
                    Err(q3)
                } else {
                    match g_block(s, q3) {
                        Err(e) => Err(e),
                        Ok((b, q4)) => Ok((AstV::For { variable, iterable, body: Box::new(b) }, q4)),
                    }
                }
            }
        },
    }
}

/// The rest of a `match` at `p`.
pub open spec fn g_match(s: Seq<char>, p: int) -> Result<(AstV, int), int>
    decreases s.len() - p, 5nat,
{
    let (expression, q1) = g_expr(s, after_space(s, p), seq!['{']);
    let q2 = after_space(s, q1);
    if !at(s, q2, '{') {
        Err(q2)
    } else {
        let q3 = after_space(s, q2 + 1);
        if q3 <= p || q3 > s.len() {
            Err(q3)
        } else {
            match g_arms(s, q3) {
                Err(e) => Err(e),
                Ok((arms, q4)) => if at(s, q4, '}') {
                    Ok((AstV::Match { expression, arms }, q4 + 1))
                } else {
                    Err(q4)
                },
            }
        }
    }
}

/// The arms of a `match` from `q` on.
pub open spec fn g_arms(s: Seq<char>, q: int) -> Result<(Seq<MatchArmV>, int), int>
    decreases s.len() - q, 5nat,
{
    if q >= s.len() || at(s, q, '}') {
        Ok((Seq::empty(), q))
    } else {
        let (pattern, q1) = g_expr(s, q, seq!['=']);
        if !holds_at(s, q1, "=>"@) || q1 + "=>"@.len() <= q {
            Err(q1)
        } else {
            match g_block(s, q1 + "=>"@.len()) {
                Err(e) => Err(e),
                Ok((body, q2)) => {
                    let q3 = after_space(s, q2);
                    if q < q3 <= s.len() {
                        cons(MatchArmV { pattern, body }, g_arms(s, q3))
                    } else {
                        Err(q3)
                    }
                },
            }
        }
    }
}

// ---------------------------------------------------------------------
// Declarations
// ---------------------------------------------------------------------

/// The position after a block comment whose body starts at `j`: after its
/// `*/`, or the end.
pub open spec fn comment_end(s: Seq<char>, j: int) -> int
    decreases s.len() - j,
{
    if j >= s.len() {
        s.len() as int
    } else if holds_at(s, j, "*/"@) {
        j + "*/"@.len()
    } else {
        comment_end(s, j + 1)
    }
}

/// The first position from `p` on past white space and comments.
pub open spec fn g_skip(s: Seq<char>, p: int) -> int
    decreases s.len() - p,
{
    let q = after_space(s, p);
    let e = if holds_at(s, q, "//"@) {
        scan_to(s.len() as int, q + "//"@.len(), char_stop(s, '\n'))
    } else if holds_at(s, q, "/*"@) {
        comment_end(s, q + "/*"@.len())
    } else {
        q
    };
    if e == q || !(p < e <= s.len()) {
        q
    } else {
        g_skip(s, e)
    }
}

/// A property line at `p`.
pub open spec fn g_prop_def(s: Seq<char>, p: int) -> Result<(PropDefV, int), int> {
    match g_ident(s, p) {
        Err(e) => Err(e),
        Ok((name, q0)) => {
            let q1 = after_space(s, q0);
            if !at(s, q1, ':') {
                Err(q1)
            } else {
                let (prop_type, q3) = g_type(s, after_space(s, q1 + 1));
                let q4 = after_space(s, q3);
                let (optional, default_value, q5) = if at(s, q4, '=') {
                    let (d, q6) = g_expr(s, after_space(s, q4 + 1), seq![',', '\n', '}']);
                    (false, Some(d), q6)
                } else if at(s, q4, '?') {
                    (true, None, q4 + 1)
                } else {
                    (false, None, q4)
                };
                let q7 = after_space(s, q5);
                let q8 = if at(s, q7, ',') {
                    after_space(s, q7 + 1)
                } else {
                    q7
                };
                Ok((PropDefV { name, prop_type, optional, default_value }, q8))
            }
        },
    }
}

/// The property lines of a props block from `q` on.
pub open spec fn g_prop_defs(s: Seq<char>, q: int) -> Result<(Seq<PropDefV>, int), int>
    decreases s.len() - q,
{
    if q >= s.len() || at(s, q, '}') {
        Ok((Seq::empty(), q))
    } else {
        match g_prop_def(s, q) {
            Err(e) => Err(e),
            Ok((d, q1)) => {
                let q2 = g_skip(s, q1);
                if q < q2 <= s.len() {
                    cons(d, g_prop_defs(s, q2))
                } else {
                    Err(q2)
                }
            },
        }
    }
}

/// The rest of a component declaration at `p`.
#[verifier::opaque]
pub open spec fn g_component(s: Seq<char>, p: int) -> Result<(ComponentDefV, int), int> {
    match g_ident(s, after_space(s, p)) {
        Err(e) => Err(e),
        Ok((name, q0)) => {
            let q1 = after_space(s, q0);
            if !at(s, q1, '{') {
                Err(q1)
            } else {
                let q2 = g_skip(s, q1 + 1);
                let inner: Result<(Seq<PropDefV>, int), int> = if keyword_at(s, q2, "props"@) {
                    let q3 = after_space(s, q2 + "props"@.len());
                    if !at(s, q3, '{') {
                        Err(q3)
                    } else {
                        match g_prop_defs(s, g_skip(s, q3 + 1)) {
                            Err(e) => Err(e),
                            Ok((props, q5)) => if at(s, q5, '}') {
                                Ok((props, g_skip(s, q5 + 1)))
                            } else {
                                Err(q5)
                            },
                        }
                    }
                } else {
                    Ok((Seq::empty(), q2))
                };
                match inner {
                    Err(e) => Err(e),
                    Ok((props, q6)) => if at(s, q6, '}') {
                        Ok((ComponentDefV { name, props }, q6 + 1))
                    } else {
                        Err(q6)
                    },
                }
            }
        },
    }
}

/// The items of an import from `q` on.
pub open spec fn g_items(s: Seq<char>, q: int) -> Result<(Seq<Seq<char>>, int), int>
    decreases s.len() - q,
{
    if q >= s.len() || at(s, q, '}') {
        Ok((Seq::empty(), q))
    } else {
        match g_ident(s, q) {
            Err(e) => Err(e),
            Ok((item, q1)) => {
                let q2 = after_space(s, q1);
                let next: Result<int, int> = if at(s, q2, ',') {
                    Ok(after_space(s, q2 + 1))
                } else if !at(s, q2, '}') {
                    Err(q2)
                } else {
                    Ok(q2)
                };
                match next {
                    Err(e) => Err(e),
                    Ok(q3) => if q < q3 <= s.len() {
                        cons(item, g_items(s, q3))
                    } else {
                        Err(q3)
                    },
                }
            },
        }
    }
}

/// The rest of an import at `p`.
#[verifier::opaque]
pub open spec fn g_import(s: Seq<char>, p: int) -> Result<(ImportDefV, int), int> {
    match g_string(s, after_space(s, p)) {
        Err(e) => Err(e),
        Ok((path, q1)) => {
            let q2 = after_space(s, q1);
            if !at(s, q2, '{') {
                Err(q2)
            } else {
                match g_items(s, after_space(s, q2 + 1)) {
                    Err(e) => Err(e),
                    Ok((items, q4)) => if at(s, q4, '}') {
                        Ok((ImportDefV { path, items }, q4 + 1))
                    } else {
                        Err(q4)
                    },
                }
            }
        },
    }
}

/// The parameters of a template from `q` on.
pub open spec fn g_params(s: Seq<char>, q: int) -> Result<(Seq<ParamDefV>, int), int>
    decreases s.len() - q,
{
    if q >= s.len() || at(s, q, ')') {
        Ok((Seq::empty(), q))
    } else {
        match g_ident(s, q) {
            Err(e) => Err(e),
            Ok((name, q0)) => {
                let q1 = after_space(s, q0);
                if !at(s, q1, ':') {
                    Err(q1)
                } else {
                    let (param_type, q3) = g_type(s, after_space(s, q1 + 1));
                    let q4 = after_space(s, q3);
                    let next: Result<int, int> = if at(s, q4, ',') {
                        Ok(after_space(s, q4 + 1))
                    } else if !at(s, q4, ')') {
                        Err(q4)
                    } else {
                        Ok(q4)
                    };
                    match next {
                        Err(e) => Err(e),
                        Ok(q5) => if q < q5 <= s.len() {
                            cons(ParamDefV { name, param_type }, g_params(s, q5))
                        } else {
                            Err(q5)
                        },
                    }
                }
            },
        }
    }
}

/// The rest of a template at `p`.
#[verifier::opaque]
pub open spec fn g_template(s: Seq<char>, p: int) -> Result<(TemplateDefV, int), int> {
    match g_ident(s, after_space(s, p)) {
        Err(e) => Err(e),
        Ok((name, q0)) => {
            let q1 = after_space(s, q0);
            if !at(s, q1, '(') {
                Err(q1)
            } else {
                match g_params(s, after_space(s, q1 + 1)) {
                    Err(e) => Err(e),
                    Ok((params, q3)) => if !at(s, q3, ')') {
                        Err(q3)
                    } else {
                        let q4 = after_space(s, q3 + 1);
                        if !at(s, q4, '{') {
                            Err(q4)
                        } else {
                            match g_body(s, q4 + 1) {
                                Err(e) => Err(e),
                                Ok((body, q5)) => if at(s, q5, '}') {
                                    Ok((TemplateDefV { name, params, body }, q5 + 1))
                                } else {
                                    Err(q5)
                                },
                            }
                        }
                    },
                }
            }
        },
    }
}

/// The declarations from `q` on, each kind in order of appearance.
pub open spec fn g_decls(s: Seq<char>, q: int) -> Result<FileV, int>
    decreases s.len() - q,
{
    if q >= s.len() {
        Ok(FileV { components: Seq::empty(), templates: Seq::empty(), imports: Seq::empty() })
    } else if keyword_at(s, q, "import"@) {
        match g_import(s, q + "import"@.len()) {
            Err(e) => Err(e),
            Ok((i, q1)) => {
                let q2 = g_skip(s, q1);
                if q < q2 <= s.len() {
                    with_import(i, g_decls(s, q2))
                } else {
                    Err(q2)
                }
            },
        }
    } else if keyword_at(s, q, "component"@) {
        match g_component(s, q + "component"@.len()) {
            Err(e) => Err(e),
            Ok((c, q1)) => {
                let q2 = g_skip(s, q1);
                if q < q2 <= s.len() {
                    with_component(c, g_decls(s, q2))
                } else {
                    Err(q2)
                }
            },
        }
    } else if keyword_at(s, q, "ruitl"@) {
        match g_template(s, q + "ruitl"@.len()) {
            Err(e) => Err(e),
            Ok((t, q1)) => {
                let q2 = g_skip(s, q1);
                if q < q2 <= s.len() {
                    with_template(t, g_decls(s, q2))
                } else {
                    Err(q2)
                }
            },
        }
    } else {
        Err(q)
    }
}

/// Declarations already read, in front of those that follow.
pub open spec fn prepend_file(f0: FileV, r: Result<FileV, int>) -> Result<FileV, int> {
    match r {
        Ok(f) => Ok(
            FileV {
                components: f0.components + f.components,
                templates: f0.templates + f.templates,
                imports: f0.imports + f.imports,
            },
        ),
        Err(e) => Err(e),
    }
}

/// An import in front of the declarations that follow.
pub open spec fn with_import(i: ImportDefV, r: Result<FileV, int>) -> Result<FileV, int> {
    match r {
        Ok(f) => Ok(FileV { imports: seq![i] + f.imports, ..f }),
        Err(e) => Err(e),
    }
}

/// A component in front of the declarations that follow.
pub open spec fn with_component(c: ComponentDefV, r: Result<FileV, int>) -> Result<FileV, int> {
    match r {
        Ok(f) => Ok(FileV { components: seq![c] + f.components, ..f }),
        Err(e) => Err(e),
    }
}

/// A template in front of the declarations that follow.
pub open spec fn with_template(t: TemplateDefV, r: Result<FileV, int>) -> Result<FileV, int> {
    match r {
        Ok(f) => Ok(FileV { templates: seq![t] + f.templates, ..f }),
        Err(e) => Err(e),
    }
}

pub proof fn lemma_prepend_file(f0: FileV, r: Result<FileV, int>, i: ImportDefV, c: ComponentDefV, t: TemplateDefV)
    ensures
        prepend_file(FileV { components: Seq::empty(), templates: Seq::empty(), imports: Seq::empty() }, r) == r,
        prepend_file(f0, with_import(i, r)) == prepend_file(FileV { imports: f0.imports.push(i), ..f0 }, r),
        prepend_file(f0, with_component(c, r)) == prepend_file(FileV { components: f0.components.push(c), ..f0 }, r),
        prepend_file(f0, with_template(t, r)) == prepend_file(FileV { templates: f0.templates.push(t), ..f0 }, r),
{
    match r {
        Ok(f) => {
            assert(Seq::<ComponentDefV>::empty() + f.components =~= f.components);
            assert(Seq::<TemplateDefV>::empty() + f.templates =~= f.templates);
            assert(Seq::<ImportDefV>::empty() + f.imports =~= f.imports);
            assert(f0.imports + (seq![i] + f.imports) =~= f0.imports.push(i) + f.imports);
            assert(f0.components + (seq![c] + f.components) =~= f0.components.push(c) + f.components);
            assert(f0.templates + (seq![t] + f.templates) =~= f0.templates.push(t) + f.templates);
        },
        Err(e) => {},
    }
}

/// A whole file: its declarations, or the position of the first error.
pub open spec fn g_file(s: Seq<char>) -> Result<FileV, int> {
    g_decls(s, g_skip(s, 0))
}

} // verus!
