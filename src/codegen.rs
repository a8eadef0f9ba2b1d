//! Code generator: lowers a parsed file into Rust source that builds the
//! HTML node tree of each component.
use vstd::prelude::*;
use crate::html::{
    is_empty_node, render_node, escape_text, Html, HtmlElement,
};
use crate::grammar::{
    arms_v, ast_v, attr_v, attrs_v, component_v, file_v, import_v, nodes_v, prop_def_v,
    prop_values_v, template_v, AstV, AttrValueV, AttributeV, ComponentDefV, FileV, ImportDefV,
    MatchArmV, PropDefV, PropValueV, TemplateDefV,
};
use crate::parser::{
    Attribute, AttributeValue, ComponentDef, ImportDef, MatchArm, PropValue, RuitlFile, TemplateAst,
    TemplateDef,
};
use crate::text::{
    chars_eq, chars_of, contains_seq, find_from, is_blank, occurs_at, push_str, replace_all,
    replace_str, trim,
};

verus! {

// ---------------------------------------------------------------------
// What the Rust parser and printer decide
// ---------------------------------------------------------------------

/// Whether `s` parses as a Rust expression.
pub uninterp spec fn rust_expr_ok(s: Seq<char>) -> bool;

/// Whether `s` parses as a Rust type.
pub uninterp spec fn rust_type_ok(s: Seq<char>) -> bool;

/// The Rust string literal whose value is `s`.
pub uninterp spec fn str_literal(s: Seq<char>) -> Seq<char>;

/// Relies on syn::parse_str::<syn::Expr>: whether `s` parses as an
/// expression, which depends on `s` alone.
#[verifier::external_body]
fn is_rust_expr(s: &str) -> (r: bool)
    ensures
        r == rust_expr_ok(s@),
{
    syn::parse_str::<syn::Expr>(s).is_ok()
}

/// Relies on syn::parse_str::<syn::Type>: whether `s` parses as a type,
/// which depends on `s` alone.
#[verifier::external_body]
fn is_rust_type(s: &str) -> (r: bool)
    ensures
        r == rust_type_ok(s@),
{
    syn::parse_str::<syn::Type>(s).is_ok()
}

/// Relies on proc_macro2::Literal::string and its printed form: a string
/// literal that denotes `s`, which depends on `s` alone.
#[verifier::external_body]
fn string_literal(s: &str) -> (r: String)
    ensures
        r@ == str_literal(s@),
{
    proc_macro2::Literal::string(s).to_string()
}

// ---------------------------------------------------------------------
// Errors
// ---------------------------------------------------------------------

/// What went wrong while generating code.
#[derive(Debug, Clone, Copy, PartialEq, Eq)]
pub enum GenerationErrorKind {
    /// An embedded expression does not parse.
    InvalidExpression,
    /// A property type does not parse.
    InvalidType,
    /// A template has no component of the same name.
    MissingComponent,
    /// A component has no template of the same name.
    MissingTemplate,
}

/// A failure to generate code, with a message that names the culprit.
#[derive(Debug, Clone)]
pub struct GenerationError {
    pub kind: GenerationErrorKind,
    pub message: String,
}

/// The message of an error about `culprit`.
pub open spec fn error_message(what: Seq<char>, culprit: Seq<char>) -> Seq<char> {
    what + " '"@ + culprit + "'"@
}

fn gen_error(kind: GenerationErrorKind, what: &str, culprit: &str) -> (e: GenerationError)
    ensures
        e.kind == kind,
        e.message@ == error_message(what@, culprit@),
{
    let mut message = String::new();
    push_str(&mut message, what);
    push_str(&mut message, " '");
    push_str(&mut message, culprit);
    push_str(&mut message, "'");
    assert(message@ =~= error_message(what@, culprit@));
    GenerationError { kind, message }
}

// ---------------------------------------------------------------------
// Rewrites of nullable access in expressions
// ---------------------------------------------------------------------

/// The borrowing form that replaces a nullable-to-default idiom.
pub open spec fn as_text_idiom() -> Seq<char> {
    ".as_deref().unwrap_or(\"\")"@
}

/// Whether `s` has exactly one `= props.`, at `i`, with `if let Some(`
/// before it.
pub open spec fn borrow_site(s: Seq<char>, i: int) -> bool {
    &&& occurs_at(s, i, "= props."@)
    &&& forall|j: int| 0 <= j && j != i ==> !#[trigger] occurs_at(s, j, "= props."@)
    &&& contains_seq(s.subrange(0, i), "if let Some("@)
}

/// `if let Some(x) = props.f` made to borrow the property, when the
/// expression has that shape.
pub open spec fn borrow_props(s: Seq<char>) -> Seq<char> {
    if exists|i: int| borrow_site(s, i) {
        let i = choose|i: int| borrow_site(s, i);
        s.subrange(0, i) + "= &props."@ + s.subrange(i + 8, s.len() as int)
    } else {
        s
    }
}

/// An embedded expression after the textual rewrites of nullable access.
pub open spec fn rewrite(e: Seq<char>) -> Seq<char> {
    let a = replace_all(e, ".unwrap_or_default()"@, as_text_idiom());
    let b = replace_all(a, ".unwrap_or(String::new())"@, as_text_idiom());
    borrow_props(b)
}

/// Rewrites nullable-to-default idioms into borrowing ones; see `rewrite`.
pub fn transform_variable_access(expr: &str) -> (r: String)
    ensures
        r@ == rewrite(expr@),
{
    proof {
        reveal_strlit(".unwrap_or_default()");
        reveal_strlit(".unwrap_or(String::new())");
        reveal_strlit("= props.");
    }
    let a = replace_str(expr, ".unwrap_or_default()", ".as_deref().unwrap_or(\"\")");
    let b = replace_str(a.as_str(), ".unwrap_or(String::new())", ".as_deref().unwrap_or(\"\")");
    let v = chars_of(b.as_str());
    let w = chars_of("= props.");
    let guard = chars_of("if let Some(");
    match find_from(&v, &w, 0) {
        Some(i) => {
            let later = if i < v.len() {
                find_from(&v, &w, i + 1)
            } else {
                None
            };
            let before = crate::text::string_of(&slice_of(&v, 0, i));
            let bv = chars_of(before.as_str());
            let has_guard = find_from(&bv, &guard, 0);
            if later.is_none() && has_guard.is_some() {
                proof {
                    assert(borrow_site(b@, i as int)) by {
                        let k = has_guard->0 as int;
                        assert(occurs_at(b@.subrange(0, i as int), k, "if let Some("@));
                        assert forall|j: int| 0 <= j && j != i implies !#[trigger] occurs_at(
                            b@,
                            j,
                            "= props."@,
                        ) by {
                            if j > i && i >= v@.len() {
                                assert(!occurs_at(b@, j, "= props."@));
                            }
                        }
                    }
                    let c = choose|c: int| borrow_site(b@, c);
                    assert(c == i);
                }
                let mut r = before;
                push_str(&mut r, "= &props.");
                let rest = crate::text::string_of(&slice_of(&v, i + 8, v.len()));
                push_str(&mut r, rest.as_str());
                return r;
            }
            proof {
                assert forall|c: int| !borrow_site(b@, c) by {
                    if borrow_site(b@, c) {
                        if c != i {
                            assert(occurs_at(b@, i as int, "= props."@));
                        } else {
                            if later is Some {
                                assert(occurs_at(b@, later->0 as int, "= props."@));
                            } else {
                                assert(b@.subrange(0, c) == bv@);
                                let k = choose|k: int| #[trigger] occurs_at(b@.subrange(0, c), k, "if let Some("@);
                                assert(occurs_at(bv@, k, guard@));
                            }
                        }
                    }
                }
            }
            b
        },
        None => {
            proof {
                assert forall|c: int| !borrow_site(b@, c) by {
                    if borrow_site(b@, c) {
                        assert(occurs_at(v@, c, w@));
                    }
                }
            }
            b
        },
    }
}

/// The characters `a..b` of `v`.
fn slice_of(v: &Vec<char>, a: usize, b: usize) -> (r: Vec<char>)
    requires
        a <= b <= v@.len(),
    ensures
        r@ == v@.subrange(a as int, b as int),
{
    let mut r: Vec<char> = Vec::new();
    let mut i: usize = a;
    while i < b
        invariant
            a <= i <= b,
            b <= v@.len(),
            r@ == v@.subrange(a as int, i as int),
        decreases b - i,
    {
        r.push(v[i]);
        i = i + 1;
        assert(r@ =~= v@.subrange(a as int, i as int));
    }
    r
}

// ---------------------------------------------------------------------
// The code of template nodes
// ---------------------------------------------------------------------

/// Both parts, one after the other, if both are there.
pub open spec fn both(a: Option<Seq<char>>, b: Option<Seq<char>>) -> Option<Seq<char>> {
    match (a, b) {
        (Some(x), Some(y)) => Some(x + y),
        _ => None,
    }
}

/// `o` between `pre` and `post`, if it is there.
pub open spec fn wrap(pre: Seq<char>, o: Option<Seq<char>>, post: Seq<char>) -> Option<Seq<char>> {
    match o {
        Some(x) => Some(pre + x + post),
        None => None,
    }
}

/// `e` if it parses as an expression.
pub open spec fn checked(e: Seq<char>) -> Option<Seq<char>> {
    if rust_expr_ok(e) {
        Some(e)
    } else {
        None
    }
}

/// The code of `Html::Empty`.
pub open spec fn empty_code() -> Seq<char> {
    "ruitl::html::Html::Empty"@
}

/// The builder call that one attribute adds: a literal value, a displayed
/// expression, or a value set only when the guard holds.
pub open spec fn gen_attr(a: AttributeV) -> Option<Seq<char>> {
    let name = str_literal(a.name);
    match a.value {
        AttrValueV::Static(v) => Some(".attr("@ + name + ", "@ + str_literal(v) + ")"@),
        AttrValueV::Expression(e) => wrap(
            ".attr("@ + name + ", &format!(\"{}\", "@,
            checked(e),
            "))"@,
        ),
        AttrValueV::Conditional(c) => wrap(".attr_if("@ + name + ", "@, checked(c), ", "@ + name + ")"@),
    }
}

/// The builder calls of several attributes, in order.
pub open spec fn gen_attrs(s: Seq<AttributeV>) -> Option<Seq<char>>
    decreases s.len(),
{
    if s.len() == 0 {
        Some(Seq::empty())
    } else {
        both(gen_attrs(s.subrange(0, s.len() - 1)), gen_attr(s[s.len() - 1]))
    }
}

/// The code of an element from the code of its attributes and children.
pub open spec fn gen_element(
    tag: Seq<char>,
    self_closing: bool,
    attrs: Option<Seq<char>>,
    kids: Option<Seq<char>>,
) -> Option<Seq<char>> {
    let ctor = if self_closing {
        "self_closing("@
    } else {
        "new("@
    };
    wrap(
        "ruitl::html::Html::Element(ruitl::html::HtmlElement::"@ + ctor + str_literal(tag) + ")"@,
        both(attrs, if self_closing { Some(Seq::empty()) } else { kids }),
        ")"@,
    )
}

/// The code of a conditional: the `else` branch defaults to `Html::Empty`.
pub open spec fn gen_if(cond: Seq<char>, then_code: Option<Seq<char>>, else_code: Option<Seq<char>>) -> Option<Seq<char>> {
    wrap("if "@, both(both(checked(rewrite(cond)), wrap(" { "@, then_code, " } else { "@)), else_code), " }"@)
}

/// The code of a loop: one node per item, collected into a fragment.
pub open spec fn gen_for(variable: Seq<char>, iterable: Seq<char>, body: Option<Seq<char>>) -> Option<Seq<char>> {
    wrap(
        "ruitl::html::Html::fragment("@,
        both(
            checked(rewrite(iterable)),
            wrap(".into_iter().map(|"@ + variable + "| "@, body, ").collect::<Vec<_>>()"@),
        ),
        ")"@,
    )
}

/// The code of a `match` from the code of its arms.
pub open spec fn gen_match(expression: Seq<char>, arms: Option<Seq<char>>) -> Option<Seq<char>> {
    wrap("match "@, both(checked(expression), wrap(" { "@, arms, "}"@)), Seq::empty())
}

/// The code of a component invocation: build the properties, render the
/// component with the current context and splice its tree in.
pub open spec fn gen_component(name: Seq<char>, props: Option<Seq<char>>) -> Option<Seq<char>> {
    wrap(
        "{ let component = "@ + name + "; let props = "@ + name + "Props { "@,
        props,
        "}; component.render(&props, context)? }"@,
    )
}

/// The field initialisers of an invocation, in order.
pub open spec fn gen_props(s: Seq<PropValueV>) -> Option<Seq<char>>
    decreases s.len(),
{
    if s.len() == 0 {
        Some(Seq::empty())
    } else {
        both(
            gen_props(s.subrange(0, s.len() - 1)),
            wrap(s[s.len() - 1].name + ": "@, checked(s[s.len() - 1].value), ", "@),
        )
    }
}

/// The code that builds a node, or `None` if an embedded expression does
/// not parse.
pub open spec fn gen_node(n: AstV) -> Option<Seq<char>>
    decreases n, 1nat,
{
    match n {
        AstV::Element { tag, attributes, children, self_closing } => gen_element(
            tag,
            self_closing,
            gen_attrs(attributes),
            gen_kids(children),
        ),
        AstV::Text(t) => Some(
            if trim(t).len() == 0 {
                empty_code()
            } else {
                "ruitl::html::Html::text("@ + str_literal(t) + ")"@
            },
        ),
        AstV::Expression(e) => wrap(
            "ruitl::html::Html::text(&format!(\"{}\", "@,
            checked(rewrite(e)),
            "))"@,
        ),
        AstV::If { condition, then_branch, else_branch } => gen_if(
            condition,
            gen_node(*then_branch),
            match else_branch {
                Some(b) => gen_node(*b),
                None => Some(empty_code()),
            },
        ),
        AstV::For { variable, iterable, body } => gen_for(variable, iterable, gen_node(*body)),
        AstV::Match { expression, arms } => gen_match(expression, gen_arms(arms)),
        AstV::Component { name, props } => gen_component(name, gen_props(props)),
        AstV::Fragment(nodes) => wrap(
            "ruitl::html::Html::fragment(vec!["@,
            gen_items(nodes),
            "])"@,
        ),
        AstV::Raw(r) => Some("ruitl::html::Html::raw("@ + str_literal(r) + ")"@),
    }
}

/// The `.child(...)` calls of several children, in order.
pub open spec fn gen_kids(s: Seq<AstV>) -> Option<Seq<char>>
    decreases s, 0nat,
{
    if s.len() == 0 {
        Some(Seq::empty())
    } else {
        both(gen_kids(s.subrange(0, s.len() - 1)), wrap(".child("@, gen_node(s[s.len() - 1]), ")"@))
    }
}

/// The code of several nodes separated by commas.
pub open spec fn gen_items(s: Seq<AstV>) -> Option<Seq<char>>
    decreases s, 0nat,
{
    if s.len() == 0 {
        Some(Seq::empty())
    } else {
        both(
            gen_items(s.subrange(0, s.len() - 1)),
            wrap(if s.len() > 1 { ", "@ } else { Seq::empty() }, gen_node(s[s.len() - 1]), Seq::empty()),
        )
    }
}

/// The arms of a `match`, each `pattern => code, `.
pub open spec fn gen_arms(s: Seq<MatchArmV>) -> Option<Seq<char>>
    decreases s, 0nat,
{
    if s.len() == 0 {
        Some(Seq::empty())
    } else {
        both(
            gen_arms(s.subrange(0, s.len() - 1)),
            wrap(s[s.len() - 1].pattern + " => "@, gen_node(s[s.len() - 1].body), ", "@),
        )
    }
}

/// Fails with an invalid-expression error unless `e` parses.
fn check_expr(e: &str) -> (r: Result<(), GenerationError>)
    ensures
        r is Ok == rust_expr_ok(e@),
        r is Err ==> r->Err_0.kind == GenerationErrorKind::InvalidExpression,
{
    if is_rust_expr(e) {
        Ok(())
    } else {
        Err(gen_error(GenerationErrorKind::InvalidExpression, "Invalid expression", e))
    }
}

/// The code of an element from the code of its attributes and children.
fn element_code(tag: &str, self_closing: bool, attrs: &str, kids: &str) -> (r: String)
    ensures
        gen_element(tag@, self_closing, Some(attrs@), Some(kids@)) == Some(r@),
{
    let mut r = String::new();
    push_str(&mut r, "ruitl::html::Html::Element(ruitl::html::HtmlElement::");
    if self_closing {
        push_str(&mut r, "self_closing(");
    } else {
        push_str(&mut r, "new(");
    }
    let lit = string_literal(tag);
    push_str(&mut r, lit.as_str());
    push_str(&mut r, ")");
    push_str(&mut r, attrs);
    if !self_closing {
        push_str(&mut r, kids);
    }
    push_str(&mut r, ")");
    proof {
        let ctor = if self_closing {
            "self_closing("@
        } else {
            "new("@
        };
        let k = if self_closing {
            Seq::<char>::empty()
        } else {
            kids@
        };
        assert(r@ =~= "ruitl::html::Html::Element(ruitl::html::HtmlElement::"@ + ctor + str_literal(tag@) + ")"@ + (attrs@ + k) + ")"@);
    }
    r
}

/// The code of one attribute's builder call.
fn attr_code(a: &Attribute) -> (r: Result<String, GenerationError>)
    ensures
        r is Ok == gen_attr(attr_v(*a)) is Some,
        r is Ok ==> gen_attr(attr_v(*a)) == Some(r->Ok_0@),
        r is Err ==> r->Err_0.kind == GenerationErrorKind::InvalidExpression,
{
    let name = string_literal(a.name.as_str());
    let mut r = String::new();
    match &a.value {
        AttributeValue::Static(v) => {
            let value = string_literal(v.as_str());
            push_str(&mut r, ".attr(");
            push_str(&mut r, name.as_str());
            push_str(&mut r, ", ");
            push_str(&mut r, value.as_str());
            push_str(&mut r, ")");
            assert(r@ =~= ".attr("@ + name@ + ", "@ + value@ + ")"@);
        },
        AttributeValue::Expression(e) => {
            check_expr(e.as_str())?;
            push_str(&mut r, ".attr(");
            push_str(&mut r, name.as_str());
            push_str(&mut r, ", &format!(\"{}\", ");
            push_str(&mut r, e.as_str());
            push_str(&mut r, "))");
            assert(r@ =~= ".attr("@ + name@ + ", &format!(\"{}\", "@ + e@ + "))"@);
        },
        AttributeValue::Conditional(c) => {
            check_expr(c.as_str())?;
            push_str(&mut r, ".attr_if(");
            push_str(&mut r, name.as_str());
            push_str(&mut r, ", ");
            push_str(&mut r, c.as_str());
            push_str(&mut r, ", ");
            push_str(&mut r, name.as_str());
            push_str(&mut r, ")");
            assert(r@ =~= ".attr_if("@ + name@ + ", "@ + c@ + (", "@ + name@ + ")"@));
        },
    }
    Ok(r)
}

/// The builder calls of the first `n` attributes.
fn attrs_code(attributes: &Vec<Attribute>, n: usize) -> (r: Result<String, GenerationError>)
    requires
        n <= attributes@.len(),
    ensures
        r is Ok == gen_attrs(attrs_v(attributes@.subrange(0, n as int))) is Some,
        r is Ok ==> gen_attrs(attrs_v(attributes@.subrange(0, n as int))) == Some(r->Ok_0@),
        r is Err ==> r->Err_0.kind == GenerationErrorKind::InvalidExpression,
    decreases n,
{
    let ghost s = attrs_v(attributes@.subrange(0, n as int));
    if n == 0 {
        return Ok(String::new());
    }
    assert(s.subrange(0, s.len() - 1) =~= attrs_v(attributes@.subrange(0, n - 1)));
    let mut r = attrs_code(attributes, n - 1)?;
    let last = attr_code(&attributes[n - 1])?;
    push_str(&mut r, last.as_str());
    Ok(r)
}

/// The code of a `.child(...)` call list, a comma-separated list, or the
/// arms of a match, for the first `n` items.
fn kids_code(children: &Vec<TemplateAst>, n: usize) -> (r: Result<String, GenerationError>)
    requires
        n <= children@.len(),
    ensures
        r is Ok == gen_kids(nodes_v(children@.subrange(0, n as int))) is Some,
        r is Ok ==> gen_kids(nodes_v(children@.subrange(0, n as int))) == Some(r->Ok_0@),
        r is Err ==> r->Err_0.kind == GenerationErrorKind::InvalidExpression,
    decreases children, 0nat, n,
{
    let ghost s = children@.subrange(0, n as int);
    if n == 0 {
        return Ok(String::new());
    }
    proof {
        crate::grammar::lemma_nodes_v(s);
        assert(s.subrange(0, s.len() - 1) =~= children@.subrange(0, n - 1));
        assert(nodes_v(s).subrange(0, n - 1) =~= nodes_v(children@.subrange(0, n - 1)));
    }
    let mut r = kids_code(children, n - 1)?;
    proof {
        assert(decreases_to!(children => children[n - 1]));
    }
    let child = node_code(&children[n - 1])?;
    push_str(&mut r, ".child(");
    push_str(&mut r, child.as_str());
    push_str(&mut r, ")");
    proof {
        assert(r@ =~= gen_kids(nodes_v(children@.subrange(0, n - 1)))->0 + (".child("@ + child@ + ")"@));
    }
    Ok(r)
}

/// The code of the first `n` nodes, separated by commas.
fn items_code(nodes: &Vec<TemplateAst>, n: usize) -> (r: Result<String, GenerationError>)
    requires
        n <= nodes@.len(),
    ensures
        r is Ok == gen_items(nodes_v(nodes@.subrange(0, n as int))) is Some,
        r is Ok ==> gen_items(nodes_v(nodes@.subrange(0, n as int))) == Some(r->Ok_0@),
        r is Err ==> r->Err_0.kind == GenerationErrorKind::InvalidExpression,
    decreases nodes, 0nat, n,
{
    let ghost s = nodes@.subrange(0, n as int);
    if n == 0 {
        return Ok(String::new());
    }
    proof {
        crate::grammar::lemma_nodes_v(s);
        assert(s.subrange(0, s.len() - 1) =~= nodes@.subrange(0, n - 1));
        assert(nodes_v(s).subrange(0, n - 1) =~= nodes_v(nodes@.subrange(0, n - 1)));
    }
    let mut r = items_code(nodes, n - 1)?;
    proof {
        assert(decreases_to!(nodes => nodes[n - 1]));
    }
    let item = node_code(&nodes[n - 1])?;
    if n > 1 {
        push_str(&mut r, ", ");
    }
    push_str(&mut r, item.as_str());
    proof {
        let sep = if n > 1 {
            ", "@
        } else {
            Seq::<char>::empty()
        };
        assert(r@ =~= gen_items(nodes_v(nodes@.subrange(0, n - 1)))->0 + (sep + item@ + Seq::<char>::empty()));
    }
    Ok(r)
}

/// The code of the first `n` arms of a match.
fn arms_code(arms: &Vec<MatchArm>, n: usize) -> (r: Result<String, GenerationError>)
    requires
        n <= arms@.len(),
    ensures
        r is Ok == gen_arms(arms_v(arms@.subrange(0, n as int))) is Some,
        r is Ok ==> gen_arms(arms_v(arms@.subrange(0, n as int))) == Some(r->Ok_0@),
        r is Err ==> r->Err_0.kind == GenerationErrorKind::InvalidExpression,
    decreases arms, 0nat, n,
{
    let ghost s = arms@.subrange(0, n as int);
    if n == 0 {
        return Ok(String::new());
    }
    proof {
        crate::grammar::lemma_arms_v_push(arms@.subrange(0, n - 1), arms@[n - 1]);
        crate::grammar::lemma_arms_v_len(arms@.subrange(0, n - 1));
        assert(arms@.subrange(0, n - 1).push(arms@[n - 1]) =~= s);
        assert(arms_v(s).subrange(0, n - 1) =~= arms_v(arms@.subrange(0, n - 1)));
    }
    let mut r = arms_code(arms, n - 1)?;
    proof {
        assert(decreases_to!(arms => arms[n - 1]));
        assert(decreases_to!(arms[n - 1] => arms[n - 1].body));
    }
    let body = node_code(&arms[n - 1].body)?;
    push_str(&mut r, arms[n - 1].pattern.as_str());
    push_str(&mut r, " => ");
    push_str(&mut r, body.as_str());
    push_str(&mut r, ", ");
    proof {
        assert(r@ =~= gen_arms(arms_v(arms@.subrange(0, n - 1)))->0 + (arms@[n - 1].pattern@ + " => "@ + body@ + ", "@));
    }
    Ok(r)
}

/// The field initialisers of the first `n` properties of an invocation.
fn props_code(props: &Vec<PropValue>, n: usize) -> (r: Result<String, GenerationError>)
    requires
        n <= props@.len(),
    ensures
        r is Ok == gen_props(prop_values_v(props@.subrange(0, n as int))) is Some,
        r is Ok ==> gen_props(prop_values_v(props@.subrange(0, n as int))) == Some(r->Ok_0@),
        r is Err ==> r->Err_0.kind == GenerationErrorKind::InvalidExpression,
    decreases n,
{
    let ghost s = prop_values_v(props@.subrange(0, n as int));
    if n == 0 {
        return Ok(String::new());
    }
    assert(s.subrange(0, s.len() - 1) =~= prop_values_v(props@.subrange(0, n - 1)));
    let mut r = props_code(props, n - 1)?;
    let p = &props[n - 1];
    check_expr(p.value.as_str())?;
    push_str(&mut r, p.name.as_str());
    push_str(&mut r, ": ");
    push_str(&mut r, p.value.as_str());
    push_str(&mut r, ", ");
    proof {
        assert(r@ =~= gen_props(prop_values_v(props@.subrange(0, n - 1)))->0 + (p.name@ + ": "@ + p.value@ + ", "@));
    }
    Ok(r)
}

/// The code of a conditional from the code of its branches.
fn if_code(condition: &str, then_code: &str, else_code: &str) -> (r: Result<String, GenerationError>)
    ensures
        r is Ok == rust_expr_ok(rewrite(condition@)),
        r is Ok ==> gen_if(condition@, Some(then_code@), Some(else_code@)) == Some(r->Ok_0@),
        r is Err ==> r->Err_0.kind == GenerationErrorKind::InvalidExpression,
{
    let c = transform_variable_access(condition);
    check_expr(c.as_str())?;
    let mut r = String::new();
    push_str(&mut r, "if ");
    push_str(&mut r, c.as_str());
    push_str(&mut r, " { ");
    push_str(&mut r, then_code);
    push_str(&mut r, " } else { ");
    push_str(&mut r, else_code);
    push_str(&mut r, " }");
    assert(r@ =~= "if "@ + (c@ + (" { "@ + then_code@ + " } else { "@) + else_code@) + " }"@);
    Ok(r)
}

/// The code of a loop from the code of its body.
fn for_code(variable: &str, iterable: &str, body_code: &str) -> (r: Result<String, GenerationError>)
    ensures
        r is Ok == rust_expr_ok(rewrite(iterable@)),
        r is Ok ==> gen_for(variable@, iterable@, Some(body_code@)) == Some(r->Ok_0@),
        r is Err ==> r->Err_0.kind == GenerationErrorKind::InvalidExpression,
{
    let it = transform_variable_access(iterable);
    check_expr(it.as_str())?;
    let mut r = String::new();
    push_str(&mut r, "ruitl::html::Html::fragment(");
    push_str(&mut r, it.as_str());
    push_str(&mut r, ".into_iter().map(|");
    push_str(&mut r, variable);
    push_str(&mut r, "| ");
    push_str(&mut r, body_code);
    push_str(&mut r, ").collect::<Vec<_>>()");
    push_str(&mut r, ")");
    assert(r@ =~= "ruitl::html::Html::fragment("@ + (it@ + (".into_iter().map(|"@ + variable@ + "| "@ + body_code@ + ").collect::<Vec<_>>()"@)) + ")"@);
    Ok(r)
}

/// The code of a component invocation from its field initialisers.
fn component_code(name: &str, props: &str) -> (r: String)
    ensures
        gen_component(name@, Some(props@)) == Some(r@),
{
    let mut r = String::new();
    push_str(&mut r, "{ let component = ");
    push_str(&mut r, name);
    push_str(&mut r, "; let props = ");
    push_str(&mut r, name);
    push_str(&mut r, "Props { ");
    push_str(&mut r, props);
    push_str(&mut r, "}; component.render(&props, context)? }");
    assert(r@ =~= "{ let component = "@ + name@ + "; let props = "@ + name@ + "Props { "@ + props@ + "}; component.render(&props, context)? }"@);
    r
}

/// The code that builds `ast`; see `gen_node`.
fn node_code(ast: &TemplateAst) -> (r: Result<String, GenerationError>)
    ensures
        r is Ok == gen_node(ast_v(*ast)) is Some,
        r is Ok ==> gen_node(ast_v(*ast)) == Some(r->Ok_0@),
        r is Err ==> r->Err_0.kind == GenerationErrorKind::InvalidExpression,
    decreases ast, 1nat, 0usize,
{
    match ast {
        TemplateAst::Element { tag, attributes, children, self_closing } => {
            assert(attributes@.subrange(0, attributes@.len() as int) =~= attributes@);
            let attrs = attrs_code(attributes, attributes.len())?;
            let kids = if *self_closing {
                String::new()
            } else {
                assert(children@.subrange(0, children@.len() as int) =~= children@);
                kids_code(children, children.len())?
            };
            if *self_closing {
                assert(gen_element(tag@, true, gen_attrs(attrs_v(attributes@)), gen_kids(nodes_v(children@)))
                    == gen_element(tag@, true, Some(attrs@), Some(kids@)));
            }
            Ok(element_code(tag.as_str(), *self_closing, attrs.as_str(), kids.as_str()))
        },
        TemplateAst::Text(t) => {
            if is_blank(t.as_str()) {
                Ok("ruitl::html::Html::Empty".to_string())
            } else {
                let lit = string_literal(t.as_str());
                let mut r = String::new();
                push_str(&mut r, "ruitl::html::Html::text(");
                push_str(&mut r, lit.as_str());
                push_str(&mut r, ")");
                assert(r@ =~= "ruitl::html::Html::text("@ + str_literal(t@) + ")"@);
                Ok(r)
            }
        },
        TemplateAst::Expression(e) => {
            let x = transform_variable_access(e.as_str());
            check_expr(x.as_str())?;
            let mut r = String::new();
            push_str(&mut r, "ruitl::html::Html::text(&format!(\"{}\", ");
            push_str(&mut r, x.as_str());
            push_str(&mut r, "))");
            assert(r@ =~= "ruitl::html::Html::text(&format!(\"{}\", "@ + x@ + "))"@);
            Ok(r)
        },
        TemplateAst::If { condition, then_branch, else_branch } => {
            let c = transform_variable_access(condition.as_str());
            check_expr(c.as_str())?;
            let then_code = node_code(then_branch)?;
            let else_code = match else_branch {
                Some(b) => node_code(b)?,
                None => "ruitl::html::Html::Empty".to_string(),
            };
            if_code(condition.as_str(), then_code.as_str(), else_code.as_str())
        },
        TemplateAst::For { variable, iterable, body } => {
            let it = transform_variable_access(iterable.as_str());
            check_expr(it.as_str())?;
            let body_code = node_code(body)?;
            for_code(variable.as_str(), iterable.as_str(), body_code.as_str())
        },
        TemplateAst::Match { expression, arms } => {
            check_expr(expression.as_str())?;
            assert(arms@.subrange(0, arms@.len() as int) =~= arms@);
            let arms_text = arms_code(arms, arms.len())?;
            let mut r = String::new();
            push_str(&mut r, "match ");
            push_str(&mut r, expression.as_str());
            push_str(&mut r, " { ");
            push_str(&mut r, arms_text.as_str());
            push_str(&mut r, "}");
            assert(r@ =~= "match "@ + (expression@ + (" { "@ + arms_text@ + "}"@)) + Seq::<char>::empty());
            Ok(r)
        },
        TemplateAst::Component { name, props } => {
            assert(props@.subrange(0, props@.len() as int) =~= props@);
            let fields = props_code(props, props.len())?;
            Ok(component_code(name.as_str(), fields.as_str()))
        },
        TemplateAst::Fragment(nodes) => {
            assert(nodes@.subrange(0, nodes@.len() as int) =~= nodes@);
            let items = items_code(nodes, nodes.len())?;
            let mut r = String::new();
            push_str(&mut r, "ruitl::html::Html::fragment(vec![");
            push_str(&mut r, items.as_str());
            push_str(&mut r, "])");
            assert(r@ =~= "ruitl::html::Html::fragment(vec!["@ + items@ + "])"@);
            Ok(r)
        },
        TemplateAst::Raw(h) => {
            let lit = string_literal(h.as_str());
            let mut r = String::new();
            push_str(&mut r, "ruitl::html::Html::raw(");
            push_str(&mut r, lit.as_str());
            push_str(&mut r, ")");
            assert(r@ =~= "ruitl::html::Html::raw("@ + str_literal(h@) + ")"@);
            Ok(r)
        },
    }
}

// ---------------------------------------------------------------------
// The code of a whole file
// ---------------------------------------------------------------------

/// The lines that every generated file starts with.
pub open spec fn header_code() -> Seq<char> {
    "use ruitl::prelude::*;\nuse ruitl::html::*;\nuse std::collections::HashMap;\n\n"@
}

/// Several names separated by commas.
pub open spec fn join_items(s: Seq<Seq<char>>) -> Seq<char>
    decreases s.len(),
{
    if s.len() == 0 {
        Seq::empty()
    } else if s.len() == 1 {
        s[0]
    } else {
        join_items(s.drop_last()) + ", "@ + s.last()
    }
}

/// The `use` item of an import.
pub open spec fn import_code(i: ImportDefV) -> Seq<char> {
    if i.items.len() == 0 {
        "use "@ + i.path + ";\n"@
    } else {
        "use "@ + i.path + "::{"@ + join_items(i.items) + "};\n"@
    }
}

/// The `use` items of several imports, in order.
pub open spec fn imports_code(s: Seq<ImportDefV>) -> Seq<char>
    decreases s.len(),
{
    if s.len() == 0 {
        Seq::empty()
    } else {
        imports_code(s.drop_last()) + import_code(s.last())
    }
}

/// The field of a property: optional properties are nullable.
pub open spec fn field_code(p: PropDefV) -> Seq<char> {
    "    pub "@ + p.name + ": "@ + if p.optional {
        "Option<"@ + p.prop_type + ">"@
    } else {
        p.prop_type
    } + ",\n"@
}

/// The fields of several properties, in order.
pub open spec fn fields_code(s: Seq<PropDefV>) -> Seq<char>
    decreases s.len(),
{
    if s.len() == 0 {
        Seq::empty()
    } else {
        fields_code(s.drop_last()) + field_code(s.last())
    }
}

/// The property record of a component and its validation hook, which
/// accepts every value; a component without properties takes the empty
/// record.
pub open spec fn props_struct_code(c: ComponentDefV) -> Seq<char> {
    let pname = c.name + "Props"@;
    if c.props.len() == 0 {
        "pub type "@ + pname + " = ruitl::component::EmptyProps;\n\n"@
    } else {
        "#[derive(Debug, Clone, serde::Serialize, serde::Deserialize)]\npub struct "@ + pname
            + " {\n"@ + fields_code(c.props) + "}\n\nimpl ruitl::component::ComponentProps for "@
            + pname
            + " {\n    fn validate(&self) -> Result<(), ruitl::error::RuitlError> {\n        Ok(())\n    }\n}\n\n"@
    }
}

/// The scalar types that are bound by copy rather than by reference.
pub open spec fn is_primitive(t: Seq<char>) -> bool {
    let u = trim(t);
    u == "bool"@ || u == "u8"@ || u == "u16"@ || u == "u32"@ || u == "u64"@ || u == "u128"@
        || u == "usize"@ || u == "i8"@ || u == "i16"@ || u == "i32"@ || u == "i64"@ || u
        == "i128"@ || u == "isize"@ || u == "f32"@ || u == "f64"@ || u == "char"@
}

/// The local binding of a property: a copy for a scalar, a reference
/// otherwise.
pub open spec fn binding_code(p: PropDefV) -> Seq<char> {
    if is_primitive(p.prop_type) {
        "        let "@ + p.name + " = props."@ + p.name + ";\n"@
    } else {
        "        let "@ + p.name + " = &props."@ + p.name + ";\n"@
    }
}

/// The bindings of several properties, in order.
pub open spec fn bindings_code(s: Seq<PropDefV>) -> Seq<char>
    decreases s.len(),
{
    if s.len() == 0 {
        Seq::empty()
    } else {
        bindings_code(s.drop_last()) + binding_code(s.last())
    }
}

/// The component type and its render function around the code of a body.
pub open spec fn render_impl_code(c: ComponentDefV, body: Seq<char>) -> Seq<char> {
    "#[derive(Debug)]\npub struct "@ + c.name + ";\n\nimpl Component for "@ + c.name
        + " {\n    type Props = "@ + c.name
        + "Props;\n\n    fn render(&self, props: &Self::Props, context: &ComponentContext) -> Result<Html, ruitl::error::RuitlError> {\n"@
        + bindings_code(c.props) + "        Ok("@ + body + ")\n    }\n}\n\n"@
}

/// The position of the last template named `name`, or -1.
pub open spec fn template_index(ts: Seq<TemplateDefV>, name: Seq<char>) -> int
    decreases ts.len(),
{
    if ts.len() == 0 {
        -1
    } else if ts.last().name == name {
        ts.len() - 1
    } else {
        template_index(ts.drop_last(), name)
    }
}

/// Whether some component is named `name`.
pub open spec fn has_component(cs: Seq<ComponentDefV>, name: Seq<char>) -> bool {
    exists|i: int| 0 <= i < cs.len() && #[trigger] cs[i].name == name
}

/// Every property type of every component parses.
pub open spec fn types_ok(cs: Seq<ComponentDefV>) -> bool {
    forall|i: int, j: int|
        0 <= i < cs.len() && 0 <= j < cs[i].props.len() ==> rust_type_ok(
            #[trigger] cs[i].props[j].prop_type,
        )
}

/// Every template has a component of its name.
pub open spec fn templates_matched(ts: Seq<TemplateDefV>, cs: Seq<ComponentDefV>) -> bool {
    forall|i: int| 0 <= i < ts.len() ==> has_component(cs, #[trigger] ts[i].name)
}

/// The body of every template lowers.
pub open spec fn bodies_ok(ts: Seq<TemplateDefV>) -> bool {
    forall|i: int| 0 <= i < ts.len() ==> (#[trigger] gen_node(ts[i].body)) is Some
}

/// Every component has a template of its name.
pub open spec fn components_matched(cs: Seq<ComponentDefV>, ts: Seq<TemplateDefV>) -> bool {
    forall|i: int| 0 <= i < cs.len() ==> template_index(ts, #[trigger] cs[i].name) >= 0
}

/// The code of each component, in order: its property record, its type and
/// its render function with the body of its template.
pub open spec fn sections_code(cs: Seq<ComponentDefV>, ts: Seq<TemplateDefV>) -> Seq<char>
    decreases cs.len(),
{
    if cs.len() == 0 {
        Seq::empty()
    } else {
        let c = cs.last();
        sections_code(cs.drop_last(), ts) + props_struct_code(c) + render_impl_code(
            c,
            gen_node(ts[template_index(ts, c.name)].body)->0,
        )
    }
}

/// The message of the error about the first template of `ts` that has no
/// component of its name, at position `k`.
pub open spec fn names_orphan_template(ts: Seq<TemplateDefV>, cs: Seq<ComponentDefV>, msg: Seq<char>) -> bool {
    exists|k: int|
        0 <= k < ts.len() && !has_component(cs, #[trigger] ts[k].name) && (forall|a: int|
            0 <= a < k ==> has_component(cs, #[trigger] ts[a].name)) && msg == error_message(
            "No component definition found for template"@,
            ts[k].name,
        )
}

/// The message of the error about the first component of `cs` that has no
/// template of its name.
pub open spec fn names_orphan_component(cs: Seq<ComponentDefV>, ts: Seq<TemplateDefV>, msg: Seq<char>) -> bool {
    exists|k: int|
        0 <= k < cs.len() && template_index(ts, #[trigger] cs[k].name) < 0 && (forall|a: int|
            0 <= a < k ==> template_index(ts, #[trigger] cs[a].name) >= 0) && msg == error_message(
            "No template found for component"@,
            cs[k].name,
        )
}

/// The generated source of a file, or the kind of the first failure: a
/// property type that does not parse, a template without component, an
/// embedded expression that does not parse, a component without template.
pub open spec fn gen_file(f: FileV) -> Result<Seq<char>, GenerationErrorKind> {
    let cs = f.components;
    let ts = f.templates;
    if !types_ok(cs) {
        Err(GenerationErrorKind::InvalidType)
    } else if !templates_matched(ts, cs) {
        Err(GenerationErrorKind::MissingComponent)
    } else if !bodies_ok(ts) {
        Err(GenerationErrorKind::InvalidExpression)
    } else if !components_matched(cs, ts) {
        Err(GenerationErrorKind::MissingTemplate)
    } else {
        Ok(header_code() + imports_code(f.imports) + sections_code(cs, ts))
    }
}

/// Lowers one parsed file into Rust source.
pub struct CodeGenerator {
    file: RuitlFile,
}

/// The names of several identifiers separated by commas.
fn join_items_code(items: &Vec<String>) -> (r: String)
    ensures
        r@ == join_items(crate::grammar::strs_v(items@)),
{
    let mut r = String::new();
    let mut i: usize = 0;
    while i < items.len()
        invariant
            i <= items@.len(),
            r@ == join_items(crate::grammar::strs_v(items@.subrange(0, i as int))),
        decreases items@.len() - i,
    {
        if i > 0 {
            push_str(&mut r, ", ");
        }
        push_str(&mut r, items[i].as_str());
        proof {
            let t = items@.subrange(0, i + 1);
            assert(crate::grammar::strs_v(t).drop_last() =~= crate::grammar::strs_v(items@.subrange(0, i as int)));
        }
        i = i + 1;
    }
    assert(items@.subrange(0, items@.len() as int) =~= items@);
    r
}

/// Whether `t`, trimmed, names a scalar type.
pub fn is_primitive_type(t: &str) -> (r: bool)
    ensures
        r == is_primitive(t@),
{
    let v = chars_of(t);
    let mut lo: usize = 0;
    let ghost f = |c: char| crate::text::is_space(c);
    while lo < v.len() && crate::text::char_is_space(v[lo])
        invariant
            v@ == t@,
            lo <= v@.len(),
            forall|i: int| 0 <= i < lo ==> crate::text::is_space(v@[i]),
        decreases v@.len() - lo,
    {
        lo = lo + 1;
    }
    let mut hi: usize = v.len();
    while hi > lo && crate::text::char_is_space(v[hi - 1])
        invariant
            v@ == t@,
            lo <= hi <= v@.len(),
            forall|i: int| hi <= i < v@.len() ==> crate::text::is_space(v@[i]),
        decreases hi,
    {
        hi = hi - 1;
    }
    proof {
        crate::text::lemma_lead_count(v@, f, lo as int);
        if lo < v@.len() {
            crate::text::lemma_trail_count(v@, f, v@.len() - hi);
        }
    }
    let u = slice_of(&v, lo, hi);
    proof {
        if lo == v@.len() {
            assert(u@ =~= Seq::<char>::empty());
        }
    }
    chars_eq(&u, "bool") || chars_eq(&u, "u8") || chars_eq(&u, "u16") || chars_eq(&u, "u32")
        || chars_eq(&u, "u64") || chars_eq(&u, "u128") || chars_eq(&u, "usize") || chars_eq(
        &u,
        "i8",
    ) || chars_eq(&u, "i16") || chars_eq(&u, "i32") || chars_eq(&u, "i64") || chars_eq(
        &u,
        "i128",
    ) || chars_eq(&u, "isize") || chars_eq(&u, "f32") || chars_eq(&u, "f64") || chars_eq(
        &u,
        "char",
    )
}

impl CodeGenerator {
    /// A generator for `file`.
    pub fn new(file: RuitlFile) -> (r: Self)
        ensures
            r.file() == file,
    {
        CodeGenerator { file }
    }

    /// The file being lowered.
    pub closed spec fn file(&self) -> RuitlFile {
        self.file
    }

    /// The `use` item of an import.
    pub fn generate_import(&self, import: &ImportDef) -> (r: String)
        ensures
            r@ == import_code(import_v(*import)),
    {
        let mut r = String::new();
        push_str(&mut r, "use ");
        push_str(&mut r, import.path.as_str());
        if import.items.len() == 0 {
            push_str(&mut r, ";\n");
            assert(r@ =~= "use "@ + import.path@ + ";\n"@);
        } else {
            push_str(&mut r, "::{");
            let items = join_items_code(&import.items);
            push_str(&mut r, items.as_str());
            push_str(&mut r, "};\n");
            assert(r@ =~= "use "@ + import.path@ + "::{"@ + join_items(crate::grammar::strs_v(import.items@)) + "};\n"@);
        }
        r
    }

    /// The property record and validation hook of a component; fails when
    /// a property type does not parse.
    pub fn generate_props_struct(&self, component: &ComponentDef) -> (r: Result<String, GenerationError>)
        ensures
            r is Ok == (forall|j: int| 0 <= j < component.props@.len() ==> rust_type_ok(
                #[trigger] component.props@[j].prop_type@,
            )),
            r is Ok ==> r->Ok_0@ == props_struct_code(component_v(*component)),
            r is Err ==> r->Err_0.kind == GenerationErrorKind::InvalidType,
    {
        let ghost props = component.props@;
        let ghost pv = component_v(*component).props;
        let mut fields = String::new();
        let mut i: usize = 0;
        while i < component.props.len()
            invariant
                props == component.props@,
                pv == component_v(*component).props,
                i <= props.len(),
                fields@ == fields_code(pv.subrange(0, i as int)),
                forall|j: int| 0 <= j < i ==> rust_type_ok(#[trigger] props[j].prop_type@),
            decreases props.len() - i,
        {
            let p = &component.props[i];
            if !is_rust_type(p.prop_type.as_str()) {
                return Err(gen_error(GenerationErrorKind::InvalidType, "Invalid type", p.prop_type.as_str()));
            }
            push_str(&mut fields, "    pub ");
            push_str(&mut fields, p.name.as_str());
            push_str(&mut fields, ": ");
            if p.optional {
                push_str(&mut fields, "Option<");
                push_str(&mut fields, p.prop_type.as_str());
                push_str(&mut fields, ">");
            } else {
                push_str(&mut fields, p.prop_type.as_str());
            }
            push_str(&mut fields, ",\n");
            proof {
                let t = pv.subrange(0, i + 1);
                assert(t.drop_last() =~= pv.subrange(0, i as int));
                assert(t.last() == prop_def_v(*p));
                assert(fields@ =~= fields_code(pv.subrange(0, i as int)) + field_code(prop_def_v(*p)));
            }
            i = i + 1;
        }
        assert(pv.subrange(0, pv.len() as int) =~= pv);
        let mut r = String::new();
        if component.props.len() == 0 {
            push_str(&mut r, "pub type ");
            push_str(&mut r, component.name.as_str());
            push_str(&mut r, "Props");
            push_str(&mut r, " = ruitl::component::EmptyProps;\n\n");
            assert(r@ =~= "pub type "@ + (component.name@ + "Props"@) + " = ruitl::component::EmptyProps;\n\n"@);
        } else {
            push_str(&mut r, "#[derive(Debug, Clone, serde::Serialize, serde::Deserialize)]\npub struct ");
            push_str(&mut r, component.name.as_str());
            push_str(&mut r, "Props");
            push_str(&mut r, " {\n");
            push_str(&mut r, fields.as_str());
            push_str(&mut r, "}\n\nimpl ruitl::component::ComponentProps for ");
            push_str(&mut r, component.name.as_str());
            push_str(&mut r, "Props");
            push_str(&mut r, " {\n    fn validate(&self) -> Result<(), ruitl::error::RuitlError> {\n        Ok(())\n    }\n}\n\n");
            let ghost pname = component.name@ + "Props"@;
            assert(r@ =~= "#[derive(Debug, Clone, serde::Serialize, serde::Deserialize)]\npub struct "@ + pname
                + " {\n"@ + fields_code(pv) + "}\n\nimpl ruitl::component::ComponentProps for "@
                + pname
                + " {\n    fn validate(&self) -> Result<(), ruitl::error::RuitlError> {\n        Ok(())\n    }\n}\n\n"@);
        }
        Ok(r)
    }

    /// The local bindings of the properties of a component.
    pub fn generate_prop_bindings(&self, component: &ComponentDef) -> (r: String)
        ensures
            r@ == bindings_code(component_v(*component).props),
    {
        let ghost props = component.props@;
        let ghost pv = component_v(*component).props;
        let mut r = String::new();
        let mut i: usize = 0;
        while i < component.props.len()
            invariant
                props == component.props@,
                pv == component_v(*component).props,
                i <= props.len(),
                r@ == bindings_code(pv.subrange(0, i as int)),
            decreases props.len() - i,
        {
            let p = &component.props[i];
            push_str(&mut r, "        let ");
            push_str(&mut r, p.name.as_str());
            if is_primitive_type(p.prop_type.as_str()) {
                push_str(&mut r, " = props.");
            } else {
                push_str(&mut r, " = &props.");
            }
            push_str(&mut r, p.name.as_str());
            push_str(&mut r, ";\n");
            proof {
                let t = pv.subrange(0, i + 1);
                assert(t.drop_last() =~= pv.subrange(0, i as int));
                assert(t.last() == prop_def_v(*p));
                assert(r@ =~= bindings_code(pv.subrange(0, i as int)) + binding_code(prop_def_v(*p)));
            }
            i = i + 1;
        }
        assert(pv.subrange(0, pv.len() as int) =~= pv);
        r
    }

    /// The component type and render function of `component` around the
    /// code of a template body.
    fn render_impl(&self, component: &ComponentDef, body: &str) -> (r: String)
        ensures
            r@ == render_impl_code(component_v(*component), body@),
    {
        let bindings = self.generate_prop_bindings(component);
        let mut r = String::new();
        push_str(&mut r, "#[derive(Debug)]\npub struct ");
        push_str(&mut r, component.name.as_str());
        push_str(&mut r, ";\n\nimpl Component for ");
        push_str(&mut r, component.name.as_str());
        push_str(&mut r, " {\n    type Props = ");
        push_str(&mut r, component.name.as_str());
        push_str(&mut r, "Props;\n\n    fn render(&self, props: &Self::Props, context: &ComponentContext) -> Result<Html, ruitl::error::RuitlError> {\n");
        push_str(&mut r, bindings.as_str());
        push_str(&mut r, "        Ok(");
        push_str(&mut r, body);
        push_str(&mut r, ")\n    }\n}\n\n");
        assert(r@ =~= render_impl_code(component_v(*component), body@));
        r
    }

    /// The code that builds `ast`; see `gen_node`.
    pub fn generate_ast_code(&self, ast: &TemplateAst) -> (r: Result<String, GenerationError>)
        ensures
            r is Ok == gen_node(ast_v(*ast)) is Some,
            r is Ok ==> gen_node(ast_v(*ast)) == Some(r->Ok_0@),
            r is Err ==> r->Err_0.kind == GenerationErrorKind::InvalidExpression,
    {
        node_code(ast)
    }

    /// The code of an element with the given parts.
    pub fn generate_element_code(
        &self,
        tag: &str,
        attributes: &Vec<Attribute>,
        children: &Vec<TemplateAst>,
        self_closing: bool,
    ) -> (r: Result<String, GenerationError>)
        ensures
            r is Ok == gen_element(tag@, self_closing, gen_attrs(attrs_v(attributes@)), gen_kids(nodes_v(children@))) is Some,
            r is Ok ==> gen_element(tag@, self_closing, gen_attrs(attrs_v(attributes@)), gen_kids(nodes_v(children@)))
                == Some(r->Ok_0@),
            r is Err ==> r->Err_0.kind == GenerationErrorKind::InvalidExpression,
    {
        assert(attributes@.subrange(0, attributes@.len() as int) =~= attributes@);
        assert(children@.subrange(0, children@.len() as int) =~= children@);
        let attrs = attrs_code(attributes, attributes.len())?;
        let kids = if self_closing {
            String::new()
        } else {
            kids_code(children, children.len())?
        };
        Ok(element_code(tag, self_closing, attrs.as_str(), kids.as_str()))
    }

    /// The builder call of one attribute; see `gen_attr`.
    pub fn generate_attribute_code(&self, attr: &Attribute) -> (r: Result<String, GenerationError>)
        ensures
            r is Ok == gen_attr(attr_v(*attr)) is Some,
            r is Ok ==> gen_attr(attr_v(*attr)) == Some(r->Ok_0@),
            r is Err ==> r->Err_0.kind == GenerationErrorKind::InvalidExpression,
    {
        attr_code(attr)
    }

    /// The code of a conditional; without `else` the node is empty.
    pub fn generate_if_code(
        &self,
        condition: &str,
        then_branch: &TemplateAst,
        else_branch: &Option<Box<TemplateAst>>,
    ) -> (r: Result<String, GenerationError>)
        ensures
            ({
                let e = match *else_branch {
                    Some(b) => gen_node(ast_v(*b)),
                    None => Some(empty_code()),
                };
                let g = gen_if(condition@, gen_node(ast_v(*then_branch)), e);
                &&& r is Ok == g is Some
                &&& r is Ok ==> g == Some(r->Ok_0@)
                &&& r is Err ==> r->Err_0.kind == GenerationErrorKind::InvalidExpression
            }),
    {
        let c = transform_variable_access(condition);
        check_expr(c.as_str())?;
        let then_code = node_code(then_branch)?;
        let else_code = match else_branch {
            Some(b) => node_code(b)?,
            None => "ruitl::html::Html::Empty".to_string(),
        };
        if_code(condition, then_code.as_str(), else_code.as_str())
    }

    /// The code of a loop over `iterable` binding `variable`.
    pub fn generate_for_code(&self, variable: &str, iterable: &str, body: &TemplateAst) -> (r:
        Result<String, GenerationError>)
        ensures
            ({
                let g = gen_for(variable@, iterable@, gen_node(ast_v(*body)));
                &&& r is Ok == g is Some
                &&& r is Ok ==> g == Some(r->Ok_0@)
                &&& r is Err ==> r->Err_0.kind == GenerationErrorKind::InvalidExpression
            }),
    {
        let it = transform_variable_access(iterable);
        check_expr(it.as_str())?;
        let body_code = node_code(body)?;
        for_code(variable, iterable, body_code.as_str())
    }

    /// The code of a `match` over `expression`.
    pub fn generate_match_code(&self, expression: &str, arms: &Vec<MatchArm>) -> (r: Result<
        String,
        GenerationError,
    >)
        ensures
            ({
                let g = gen_match(expression@, gen_arms(arms_v(arms@)));
                &&& r is Ok == g is Some
                &&& r is Ok ==> g == Some(r->Ok_0@)
                &&& r is Err ==> r->Err_0.kind == GenerationErrorKind::InvalidExpression
            }),
    {
        check_expr(expression)?;
        assert(arms@.subrange(0, arms@.len() as int) =~= arms@);
        let arms_text = arms_code(arms, arms.len())?;
        let mut r = String::new();
        push_str(&mut r, "match ");
        push_str(&mut r, expression);
        push_str(&mut r, " { ");
        push_str(&mut r, arms_text.as_str());
        push_str(&mut r, "}");
        assert(r@ =~= "match "@ + (expression@ + (" { "@ + arms_text@ + "}"@)) + Seq::<char>::empty());
        Ok(r)
    }

    /// The code of an invocation of component `name`.
    pub fn generate_component_invocation_code(&self, name: &str, props: &Vec<PropValue>) -> (r:
        Result<String, GenerationError>)
        ensures
            ({
                let g = gen_component(name@, gen_props(prop_values_v(props@)));
                &&& r is Ok == g is Some
                &&& r is Ok ==> g == Some(r->Ok_0@)
                &&& r is Err ==> r->Err_0.kind == GenerationErrorKind::InvalidExpression
            }),
    {
        assert(props@.subrange(0, props@.len() as int) =~= props@);
        let fields = props_code(props, props.len())?;
        Ok(component_code(name, fields.as_str()))
    }
}

proof fn lemma_template_index(ts: Seq<TemplateDefV>, name: Seq<char>)
    ensures
        -1 <= template_index(ts, name) < ts.len(),
        template_index(ts, name) >= 0 ==> ts[template_index(ts, name)].name == name,
    decreases ts.len(),
{
    if ts.len() > 0 && ts.last().name != name {
        lemma_template_index(ts.drop_last(), name);
    }
}

/// The position of the last template named `name`.
fn find_template(ts: &Vec<TemplateDef>, name: &str) -> (r: Option<usize>)
    ensures
        r is Some == (template_index(ts@.map_values(|t: TemplateDef| template_v(t)), name@) >= 0),
        r is Some ==> r->0 == template_index(ts@.map_values(|t: TemplateDef| template_v(t)), name@)
            && r->0 < ts@.len(),
{
    let ghost tv = ts@.map_values(|t: TemplateDef| template_v(t));
    proof {
        lemma_template_index(tv, name@);
    }
    let mut i: usize = ts.len();
    assert(tv.subrange(0, i as int) =~= tv);
    while i > 0
        invariant
            i <= ts@.len(),
            tv == ts@.map_values(|t: TemplateDef| template_v(t)),
            template_index(tv, name@) == template_index(tv.subrange(0, i as int), name@),
        decreases i,
    {
        let ghost t = tv.subrange(0, i as int);
        if crate::text::str_eq(ts[i - 1].name.as_str(), name) {
            assert(t.last().name == name@);
            return Some(i - 1);
        }
        assert(t.drop_last() =~= tv.subrange(0, i - 1));
        i = i - 1;
    }
    None
}

/// Whether a component is named `name`.
fn find_component(cs: &Vec<ComponentDef>, name: &str) -> (r: bool)
    ensures
        r == has_component(cs@.map_values(|c: ComponentDef| component_v(c)), name@),
{
    let mut i: usize = 0;
    while i < cs.len()
        invariant
            i <= cs@.len(),
            forall|j: int| 0 <= j < i ==> cs@[j].name@ != name@,
        decreases cs@.len() - i,
    {
        if crate::text::str_eq(cs[i].name.as_str(), name) {
            assert(cs@.map_values(|c: ComponentDef| component_v(c))[i as int].name == name@);
            return true;
        }
        i = i + 1;
    }
    false
}

impl CodeGenerator {
    /// The components of the file, as plain values.
    pub closed spec fn comps(&self) -> Seq<ComponentDefV> {
        file_v(self.file).components
    }

    /// The templates of the file, as plain values.
    pub closed spec fn temps(&self) -> Seq<TemplateDefV> {
        file_v(self.file).templates
    }

    /// The property records of all components, in order.
    fn props_structs(&self) -> (r: Result<Vec<String>, GenerationError>)
        ensures
            r is Ok == types_ok(self.comps()),
            r is Ok ==> r->Ok_0@.len() == self.comps().len() && forall|a: int|
                0 <= a < self.comps().len() ==> #[trigger] r->Ok_0@[a]@ == props_struct_code(
                    self.comps()[a],
                ),
            r is Err ==> r->Err_0.kind == GenerationErrorKind::InvalidType,
    {
        let cs = &self.file.components;
        let ghost cv = self.comps();
        let mut structs: Vec<String> = Vec::new();
        let mut i: usize = 0;
        while i < cs.len()
            invariant
                i <= cs@.len(),
                cs@ == self.file.components@,
                cv == self.comps(),
                cv == cs@.map_values(|c: ComponentDef| component_v(c)),
                structs@.len() == i,
                forall|a: int| 0 <= a < i ==> #[trigger] structs@[a]@ == props_struct_code(cv[a]),
                forall|a: int, j: int|
                    0 <= a < i && 0 <= j < cv[a].props.len() ==> rust_type_ok(
                        #[trigger] cv[a].props[j].prop_type,
                    ),
            decreases cs@.len() - i,
        {
            let ghost c = cs@[i as int];
            assert(cv[i as int] == component_v(c));
            assert forall|j: int| 0 <= j < c.props@.len() implies #[trigger] cv[i as int].props[j].prop_type
                == c.props@[j].prop_type@ by {}
            match self.generate_props_struct(&cs[i]) {
                Ok(code) => {
                    structs.push(code);
                },
                Err(e) => {
                    assert(!types_ok(cv)) by {
                        if types_ok(cv) {
                            assert forall|j: int| 0 <= j < c.props@.len() implies rust_type_ok(
                                #[trigger] c.props@[j].prop_type@,
                            ) by {
                                assert(rust_type_ok(cv[i as int].props[j].prop_type));
                            }
                        }
                    }
                    return Err(e);
                },
            }
            i = i + 1;
        }
        Ok(structs)
    }

    /// Fails unless every template has a component of its name.
    fn check_templates(&self) -> (r: Result<(), GenerationError>)
        ensures
            r is Ok == templates_matched(self.temps(), self.comps()),
            r is Err ==> r->Err_0.kind == GenerationErrorKind::MissingComponent
                && names_orphan_template(self.temps(), self.comps(), r->Err_0.message@),
    {
        let cs = &self.file.components;
        let ts = &self.file.templates;
        let ghost cv = self.comps();
        let ghost tv = self.temps();
        let mut k: usize = 0;
        while k < ts.len()
            invariant
                k <= ts@.len(),
                ts@ == self.file.templates@,
                cs@ == self.file.components@,
                cv == self.comps(),
                tv == self.temps(),
                cv == cs@.map_values(|c: ComponentDef| component_v(c)),
                tv == ts@.map_values(|t: TemplateDef| template_v(t)),
                forall|a: int| 0 <= a < k ==> has_component(cv, #[trigger] tv[a].name),
            decreases ts@.len() - k,
        {
            if !find_component(cs, ts[k].name.as_str()) {
                assert(tv[k as int].name == ts@[k as int].name@);
                let e = gen_error(
                    GenerationErrorKind::MissingComponent,
                    "No component definition found for template",
                    ts[k].name.as_str(),
                );
                assert(names_orphan_template(tv, cv, e.message@)) by {
                    assert(!has_component(cv, tv[k as int].name));
                }
                return Err(e);
            }
            assert(tv[k as int].name == ts@[k as int].name@);
            k = k + 1;
        }
        Ok(())
    }

    /// The code of the body of every template, in order.
    fn body_codes(&self) -> (r: Result<Vec<String>, GenerationError>)
        ensures
            r is Ok == bodies_ok(self.temps()),
            r is Ok ==> r->Ok_0@.len() == self.temps().len() && forall|a: int|
                0 <= a < self.temps().len() ==> #[trigger] gen_node(self.temps()[a].body) == Some(
                    r->Ok_0@[a]@,
                ),
            r is Err ==> r->Err_0.kind == GenerationErrorKind::InvalidExpression,
    {
        let ts = &self.file.templates;
        let ghost tv = self.temps();
        let mut bodies: Vec<String> = Vec::new();
        let mut k: usize = 0;
        while k < ts.len()
            invariant
                k <= ts@.len(),
                ts@ == self.file.templates@,
                tv == self.temps(),
                tv == ts@.map_values(|t: TemplateDef| template_v(t)),
                bodies@.len() == k,
                forall|a: int| 0 <= a < k ==> #[trigger] gen_node(tv[a].body) == Some(bodies@[a]@),
            decreases ts@.len() - k,
        {
            assert(tv[k as int].body == ast_v(ts@[k as int].body));
            match node_code(&ts[k].body) {
                Ok(code) => {
                    bodies.push(code);
                },
                Err(e) => {
                    assert(!bodies_ok(tv));
                    return Err(e);
                },
            }
            k = k + 1;
        }
        Ok(bodies)
    }

    /// The sections of all components, given their records and the code of
    /// every template body.
    fn sections(&self, structs: &Vec<String>, bodies: &Vec<String>) -> (r: Result<String, GenerationError>)
        requires
            structs@.len() == self.comps().len(),
            bodies@.len() == self.temps().len(),
            forall|a: int|
                0 <= a < self.comps().len() ==> #[trigger] structs@[a]@ == props_struct_code(
                    self.comps()[a],
                ),
            forall|a: int|
                0 <= a < self.temps().len() ==> #[trigger] gen_node(self.temps()[a].body) == Some(
                    bodies@[a]@,
                ),
        ensures
            r is Ok == components_matched(self.comps(), self.temps()),
            r is Ok ==> r->Ok_0@ == sections_code(self.comps(), self.temps()),
            r is Err ==> r->Err_0.kind == GenerationErrorKind::MissingTemplate
                && names_orphan_component(self.comps(), self.temps(), r->Err_0.message@),
    {
        let cs = &self.file.components;
        let ts = &self.file.templates;
        let ghost cv = self.comps();
        let ghost tv = self.temps();
        let mut out = String::new();
        let mut i: usize = 0;
        while i < cs.len()
            invariant
                i <= cs@.len(),
                cs@ == self.file.components@,
                ts@ == self.file.templates@,
                cv == self.comps(),
                tv == self.temps(),
                cv == cs@.map_values(|c: ComponentDef| component_v(c)),
                tv == ts@.map_values(|t: TemplateDef| template_v(t)),
                structs@.len() == cv.len(),
                bodies@.len() == tv.len(),
                forall|a: int| 0 <= a < cv.len() ==> #[trigger] structs@[a]@ == props_struct_code(cv[a]),
                forall|a: int| 0 <= a < tv.len() ==> #[trigger] gen_node(tv[a].body) == Some(bodies@[a]@),
                forall|a: int| 0 <= a < i ==> template_index(tv, #[trigger] cv[a].name) >= 0,
                out@ == sections_code(cv.subrange(0, i as int), tv),
            decreases cs@.len() - i,
        {
            let c = &cs[i];
            assert(cv[i as int] == component_v(*c));
            match find_template(ts, c.name.as_str()) {
                Some(t) => {
                    push_str(&mut out, structs[i].as_str());
                    let section = self.render_impl(c, bodies[t].as_str());
                    push_str(&mut out, section.as_str());
                    proof {
                        let u = cv.subrange(0, i + 1);
                        assert(u.drop_last() =~= cv.subrange(0, i as int));
                        assert(u.last() == cv[i as int]);
                        assert(gen_node(tv[t as int].body) == Some(bodies@[t as int]@));
                        assert(out@ =~= sections_code(u, tv));
                    }
                },
                None => {
                    assert(template_index(tv, cv[i as int].name) < 0);
                    assert(!components_matched(cv, tv));
                    let e = gen_error(
                        GenerationErrorKind::MissingTemplate,
                        "No template found for component",
                        c.name.as_str(),
                    );
                    assert(names_orphan_component(cv, tv, e.message@));
                    return Err(e);
                },
            }
            i = i + 1;
        }
        assert(cv.subrange(0, cv.len() as int) =~= cv);
        Ok(out)
    }

    /// The Rust source of the whole file; see `gen_file`. No source is
    /// produced when any part fails.
    pub fn generate(&self) -> (r: Result<String, GenerationError>)
        ensures
            r is Ok == gen_file(file_v(self.file())) is Ok,
            r is Ok ==> gen_file(file_v(self.file())) == Ok::<Seq<char>, GenerationErrorKind>(
                r->Ok_0@,
            ),
            r is Err ==> gen_file(file_v(self.file())) == Err::<Seq<char>, GenerationErrorKind>(
                r->Err_0.kind,
            ),
            r is Err && r->Err_0.kind == GenerationErrorKind::MissingComponent
                ==> names_orphan_template(
                file_v(self.file()).templates,
                file_v(self.file()).components,
                r->Err_0.message@,
            ),
            r is Err && r->Err_0.kind == GenerationErrorKind::MissingTemplate
                ==> names_orphan_component(
                file_v(self.file()).components,
                file_v(self.file()).templates,
                r->Err_0.message@,
            ),
    {
        let structs = self.props_structs()?;
        self.check_templates()?;
        let bodies = self.body_codes()?;
        let sections = self.sections(&structs, &bodies)?;
        let mut out = String::new();
        push_str(&mut out, "use ruitl::prelude::*;\nuse ruitl::html::*;\nuse std::collections::HashMap;\n\n");
        let imports = &self.file.imports;
        let ghost iv = file_v(self.file).imports;
        let mut m: usize = 0;
        while m < imports.len()
            invariant
                m <= imports@.len(),
                imports@ == self.file.imports@,
                iv == imports@.map_values(|i: ImportDef| import_v(i)),
                out@ == header_code() + imports_code(iv.subrange(0, m as int)),
            decreases imports@.len() - m,
        {
            let code = self.generate_import(&imports[m]);
            push_str(&mut out, code.as_str());
            proof {
                let t = iv.subrange(0, m + 1);
                assert(t.drop_last() =~= iv.subrange(0, m as int));
            }
            m = m + 1;
        }
        assert(iv.subrange(0, iv.len() as int) =~= iv);
        push_str(&mut out, sections.as_str());
        Ok(out)
    }
}

/// Setting an attribute only when a guard holds, as generated code does for
/// conditional attributes.
pub trait HtmlElementExt: Sized {
    fn attr_if(self, name: &str, condition: bool, value: &str) -> Self;
}

impl HtmlElementExt for HtmlElement {
    fn attr_if(self, name: &str, condition: bool, value: &str) -> Self {
        HtmlElement::attr_if(self, name, condition, value)
    }
}

// ---------------------------------------------------------------------
// Laws
// ---------------------------------------------------------------------

/// Literal text lowers to a text node holding exactly that text, which
/// renders as the text escaped.
pub proof fn lemma_literal_text(t: String)
    requires
        trim(t@).len() > 0,
    ensures
        gen_node(AstV::Text(t@)) == Some("ruitl::html::Html::text("@ + str_literal(t@) + ")"@),
        render_node(Html::Text(t)) == escape_text(t@),
{
}

/// A conditional without `else` lowers to code whose false branch is
/// `Html::Empty`, which is empty and renders to nothing.
pub proof fn lemma_if_without_else(condition: Seq<char>, then_branch: AstV)
    ensures
        gen_node(AstV::If { condition, then_branch: Box::new(then_branch), else_branch: None })
            == gen_if(condition, gen_node(then_branch), Some(empty_code())),
        is_empty_node(Html::Empty),
        render_node(Html::Empty) == Seq::<char>::empty(),
{
}

/// A loop lowers to one body per item of the iterable, collected in order
/// into a single fragment.
pub proof fn lemma_for_is_fragment(variable: Seq<char>, iterable: Seq<char>, body: AstV)
    requires
        rust_expr_ok(rewrite(iterable)),
        gen_node(body) is Some,
    ensures
        gen_node(AstV::For { variable, iterable, body: Box::new(body) }) == Some(
            "ruitl::html::Html::fragment("@ + rewrite(iterable) + ".into_iter().map(|"@ + variable
                + "| "@ + gen_node(body)->0 + ").collect::<Vec<_>>()"@ + ")"@,
        ),
{
    let g = gen_node(AstV::For { variable, iterable, body: Box::new(body) });
    assert(g->0 =~= "ruitl::html::Html::fragment("@ + rewrite(iterable) + ".into_iter().map(|"@
        + variable + "| "@ + gen_node(body)->0 + ").collect::<Vec<_>>()"@ + ")"@);
}

} // verus!
