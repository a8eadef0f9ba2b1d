use ruitl::component::{Component, ComponentContext, ComponentProps, EmptyProps};
use ruitl::html::{text, Html};
use ruitl::render::{CompileContext, CssStrategy, JsStrategy, PageData, RenderOptions};
use ruitl::{compile, init, CompileError, VERSION};

#[test]
fn test_version() {
    assert!(!VERSION.is_empty());
}

#[test]
fn test_init() {
    assert!(init().is_ok());
}

#[test]
fn test_render_options() {
    let options = RenderOptions::new()
        .minified()
        .pretty()
        .css_strategy(CssStrategy::Inline)
        .js_strategy(JsStrategy::Omitted);

    assert!(options.minify);
    assert!(options.pretty);
    assert_eq!(options.css_strategy, CssStrategy::Inline);
    assert_eq!(options.js_strategy, JsStrategy::Omitted);
}

#[test]
fn test_compile_context() {
    let context = CompileContext::default();
    assert!(context.variables.is_empty());
    assert!(context.imports.is_empty());
    assert!(context.component_types.is_empty());
}

// The code that the compiler emits for the `Hello` template, as a user
// crate would hold it.
#[derive(Debug, Clone)]
pub struct HelloProps {
    pub name: String,
}

impl ruitl::component::ComponentProps for HelloProps {
    fn validate(&self) -> Result<(), ruitl::error::RuitlError> {
        Ok(())
    }
}

#[derive(Debug)]
pub struct Hello;

impl Component for Hello {
    type Props = HelloProps;

    fn render(&self, props: &Self::Props, context: &ComponentContext) -> Result<Html, ruitl::error::RuitlError> {
        let name = &props.name;
        let _ = context;
        Ok(ruitl::html::Html::Element(ruitl::html::HtmlElement::new("div").child(ruitl::html::Html::Element(ruitl::html::HtmlElement::new("h1").child(ruitl::html::Html::text("Hello, ")).child(ruitl::html::Html::text(&format!("{}", name))).child(ruitl::html::Html::text("!"))))))
    }
}

#[test]
fn hello_end_to_end() {
    let source = "component Hello { props { name: String } } ruitl Hello(name: String) { <div><h1>Hello, {name}!</h1></div> }";
    let code = compile(source).unwrap();
    assert!(code.contains("pub struct HelloProps {\n    pub name: String,\n}"));
    assert!(code.contains("impl Component for Hello {"));
    assert!(code.contains("let name = &props.name;"));
    assert!(code.contains(
        "Ok(ruitl::html::Html::Element(ruitl::html::HtmlElement::new(\"div\").child(ruitl::html::Html::Element(ruitl::html::HtmlElement::new(\"h1\").child(ruitl::html::Html::text(\"Hello, \")).child(ruitl::html::Html::text(&format!(\"{}\", name))).child(ruitl::html::Html::text(\"!\"))))))"
    ));
    let props = HelloProps { name: "World".to_string() };
    assert!(props.validate().is_ok());
    let tree = Hello.render(&props, &ComponentContext::new()).unwrap();
    let rendered = tree.render();
    assert_eq!(rendered, "<div><h1>Hello, World!</h1></div>");
    assert!(rendered.contains("Hello, World!"));
    assert!(!tree.is_empty());
    assert_eq!(tree.text_content(), "Hello, World!");
}

#[test]
fn compile_is_repeatable() {
    let source = "import \"a::b\" { C }\ncomponent A { props { x: u8, y: Vec<String>? } }\ncomponent B { }\nruitl A() { <p>{x}</p> }\nruitl B() { if ok { <b>y</b> } }";
    let first = compile(source).unwrap();
    let second = compile(source).unwrap();
    assert_eq!(first, second);
    assert!(first.starts_with("use ruitl::prelude::*;\nuse ruitl::html::*;\nuse std::collections::HashMap;\n\nuse a::b::{C};\n"));
    assert!(first.contains("pub type BProps = ruitl::component::EmptyProps;"));
    assert!(first.contains("pub y: Option<Vec<String>>,"));
}

#[test]
fn literal_text_round_trips_through_escaping() {
    let code = compile("component T { } ruitl T() { a > b & c }").unwrap();
    assert!(code.contains("Ok(ruitl::html::Html::text(\"a > b & c \"))"));
    assert_eq!(text("a > b & c ").render(), "a &gt; b &amp; c ");
}

#[test]
fn compile_errors() {
    match compile("component Button { props { text String } }") {
        Err(CompileError::Parse(e)) => assert_eq!((e.line, e.column), (1, 33)),
        _ => panic!("expected a parse error"),
    }
    match compile("component A { } ruitl A() { {1 +} }") {
        Err(CompileError::Generation(_)) => {},
        _ => panic!("expected a generation error"),
    }
    assert!(compile("").unwrap().contains("use ruitl::prelude::*;"));
}

#[test]
fn context_maps() {
    let ctx = ComponentContext::new()
        .with_path("/home")
        .with_query("q", "1")
        .with_query("q", "2")
        .with_header("h", "v")
        .with_env("E", "x");
    assert_eq!(ctx.path, Some("/home".to_string()));
    assert_eq!(ctx.get_query("q"), Some(&"2".to_string()));
    assert_eq!(ctx.query.len(), 1);
    assert_eq!(ctx.get_header("h"), Some(&"v".to_string()));
    assert_eq!(ctx.get_env("E"), Some(&"x".to_string()));
    assert_eq!(ctx.get_env("missing"), None);
    assert_eq!(EmptyProps, EmptyProps::default());
}

#[test]
fn render_options_defaults_and_builders() {
    let options = RenderOptions::new()
        .with_head_element(text("t"))
        .with_body_attribute("class", "a")
        .with_body_attribute("class", "b");
    assert_eq!(options.doctype, Some("<!DOCTYPE html>".to_string()));
    assert_eq!(options.css_strategy, CssStrategy::External);
    assert_eq!(options.js_strategy, JsStrategy::External);
    assert_eq!(options.head_elements.len(), 1);
    assert_eq!(options.body_attributes, vec![("class".to_string(), "b".to_string())]);
}

#[test]
fn errors_carry_their_message() {
    let e = ruitl::error::RuitlError::render("boom");
    assert_eq!(e.message(), "Render error: boom");
    assert_eq!(e.message, "boom");
    assert_eq!(e.kind, ruitl::error::ErrorKind::Render);
    assert_eq!(ruitl::error::RuitlError::component("x").kind, ruitl::error::ErrorKind::Component);
    assert!(EmptyProps.validate().is_ok());
}

#[test]
fn test_component_context() {
    let context = ComponentContext::new()
        .with_path("/test")
        .with_query("param", "value")
        .with_header("content-type", "text/html")
        .with_env("NODE_ENV", "production");

    assert_eq!(context.path, Some("/test".to_string()));
    assert_eq!(context.get_query("param"), Some(&"value".to_string()));
    assert_eq!(context.get_header("content-type"), Some(&"text/html".to_string()));
    assert_eq!(context.get_env("NODE_ENV"), Some(&"production".to_string()));
}

#[test]
fn test_empty_props() {
    let props = EmptyProps;
    assert!(props.validate().is_ok());
    assert!(props.to_map().is_empty());
}

#[test]
fn test_page_data() {
    let mut page_data = PageData::default();
    page_data.title = Some("Test Page".to_string());
    page_data.description = Some("A test page".to_string());
    page_data.keywords = vec!["test".to_string(), "page".to_string()];

    assert_eq!(page_data.title, Some("Test Page".to_string()));
    assert_eq!(page_data.keywords.len(), 2);
}
