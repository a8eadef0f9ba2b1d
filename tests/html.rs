use ruitl::codegen::HtmlElementExt;
use ruitl::html::{
    a, br, div, fragment, h1, img, input, is_void_element, p, raw, span, text, Html, HtmlAttribute,
    HtmlElement,
};

#[test]
fn test_basic_element() {
    let element = div().class("test").text("Hello, world!");
    let html = element.render();
    assert_eq!(html, r#"<div class="test">Hello, world!</div>"#);
}

#[test]
fn test_self_closing_element() {
    let element = img().attr("src", "test.jpg").attr("alt", "Test");
    let html = element.render();
    assert_eq!(html, r#"<img src="test.jpg" alt="Test" />"#);
}

#[test]
fn test_boolean_attribute() {
    let element = input().attr("type", "checkbox").bool_attr("checked");
    let html = element.render();
    assert_eq!(html, r#"<input type="checkbox" checked />"#);
}

#[test]
fn test_nested_elements() {
    let element = div()
        .class("container")
        .child(Html::Element(h1().text("Title")))
        .child(Html::Element(p().text("Content")));

    let html = element.render();
    assert!(html.contains(r#"<div class="container">"#));
    assert!(html.contains("<h1>Title</h1>"));
    assert!(html.contains("<p>Content</p>"));
    assert!(html.contains("</div>"));
}

#[test]
fn test_text_escaping() {
    let element = div().text("<script>alert('xss')</script>");
    let html = element.render();
    assert!(html.contains("&lt;script&gt;"));
    assert!(!html.contains("<script>"));
}

#[test]
fn test_raw_html() {
    let element = div().raw("<em>emphasized</em>");
    let html = element.render();
    assert!(html.contains("<em>emphasized</em>"));
}

#[test]
fn test_fragment() {
    let frag = fragment(vec![
        text("Hello "),
        Html::Element(span().text("world")),
        text("!"),
    ]);
    let html = frag.render();
    assert_eq!(html, "Hello <span>world</span>!");
}

#[test]
fn test_multiple_classes() {
    let element = div().classes(vec!["one", "two", "three"]);
    let html = element.render();
    assert!(html.contains(r#"class="one two three""#));
}

#[test]
fn test_void_elements() {
    assert!(is_void_element("br"));
    assert!(is_void_element("img"));
    assert!(is_void_element("input"));
    assert!(!is_void_element("div"));
    assert!(!is_void_element("span"));
}

#[test]
fn test_text_content() {
    let element = div()
        .child(text("Hello "))
        .child(Html::Element(span().text("world")))
        .child(text("!"));

    let html = Html::Element(element);
    assert_eq!(html.text_content(), "Hello world!");
}

#[test]
fn test_empty_html() {
    assert!(Html::empty().is_empty());
    assert!(Html::text("").is_empty());
    assert!(Html::fragment(vec![]).is_empty());
    assert!(!Html::text("content").is_empty());
}

#[test]
fn script_text_is_escaped_and_raw_is_kept() {
    assert_eq!(Html::text("<script>").render(), "&lt;script&gt;");
    assert_eq!(Html::raw("<b>x</b>").render(), "<b>x</b>");
    assert_eq!(text("a & b > c").render(), "a &amp; b &gt; c");
    assert_eq!(raw("").render(), "");
}

#[test]
fn img_renders_self_closing_even_with_children() {
    let element = HtmlElement::new("img")
        .attr("src", "a.png")
        .child(text("ignored"))
        .child(Html::Element(span().text("also ignored")));
    assert!(element.is_self_closing());
    assert_eq!(element.render(), r#"<img src="a.png" />"#);
    assert_eq!(HtmlElement::new("IMG").render(), "<IMG />");
    assert_eq!(HtmlElement::self_closing("x-icon").render(), "<x-icon />");
    assert_eq!(br().render(), "<br />");
}

#[test]
fn conditional_attribute_follows_guard() {
    let on = HtmlElement::new("button").attr_if("disabled", true, "disabled");
    let off = HtmlElement::new("button").attr_if("disabled", false, "disabled");
    assert_eq!(on.render(), r#"<button disabled="disabled"></button>"#);
    assert_eq!(off.render(), "<button></button>");
}

#[test]
fn fragment_keeps_one_entry_per_item() {
    let items = vec!["a", "b", "c"];
    let mut children = Vec::new();
    for item in &items {
        children.push(Html::Element(HtmlElement::new("li").text(item)));
    }
    match Html::fragment(children) {
        Html::Fragment(nodes) => assert_eq!(nodes.len(), 3),
        _ => panic!("expected a fragment"),
    }
    match Html::fragment(Vec::new()) {
        Html::Fragment(nodes) => assert_eq!(nodes.len(), 0),
        _ => panic!("expected a fragment"),
    }
}

#[test]
fn emptiness_predicate() {
    assert!(Html::fragment(vec![Html::empty(), text(""), raw("")]).is_empty());
    assert!(!Html::fragment(vec![Html::empty(), text("x")]).is_empty());
    assert!(!Html::Element(div()).is_empty());
    assert!(!raw("x").is_empty());
}

#[test]
fn attributes_last_write_wins_in_place() {
    let element = a().attr("href", "/one").id("x").attr("href", "/two");
    assert_eq!(element.attributes.len(), 2);
    assert_eq!(element.render(), r#"<a href="/two" id="x"></a>"#);
}

#[test]
fn class_accumulates() {
    let element = div().class("one").class("two");
    assert_eq!(element.render(), r#"<div class="one two"></div>"#);
    let listed = div().classes(vec!["a", "b"]).class("c");
    assert_eq!(listed.render(), r#"<div class="a b c"></div>"#);
    let unchanged = div().classes(Vec::new());
    assert_eq!(unchanged.render(), "<div></div>");
}

#[test]
fn attribute_values_are_escaped() {
    let element = div().attr("title", "a\"b'<&>");
    assert_eq!(element.render(), r#"<div title="a&quot;b&#x27;&lt;&amp;&gt;"></div>"#);
    assert_eq!(HtmlAttribute::Value("x".to_string()).render(), "\"x\"");
    assert_eq!(HtmlAttribute::Boolean.render(), "");
    assert!(HtmlAttribute::Boolean.is_boolean());
    let list = HtmlAttribute::List(vec!["p".to_string(), "q".to_string()]);
    assert_eq!(list.render(), "\"p q\"");
}

#[test]
fn builders_set_children() {
    let element = div().children(vec![text("a"), text("b")]);
    assert!(element.has_children());
    assert_eq!(element.children.len(), 2);
    assert!(!div().has_children());
    assert_eq!(Html::element("section").tag, "section");
}

#[test]
fn void_tags_are_compared_after_lower_casing() {
    assert!(is_void_element("IMG"));
    assert!(is_void_element("Br"));
    assert!(is_void_element("lin\u{212A}"));
    assert!(!is_void_element("imgs"));
}
