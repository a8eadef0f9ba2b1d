use ruitl::parser::{AttributeValue, RuitlParser, TemplateAst};

fn is_element_with_tag(ast: &TemplateAst, expected: &str) -> bool {
    match ast {
        TemplateAst::Element { tag, .. } => tag == expected,
        _ => false,
    }
}

#[test]
fn test_parse_identifier() {
    let mut parser = RuitlParser::new("hello_world".to_string());
    let result = parser.parse_identifier().unwrap();
    assert_eq!(result, "hello_world");
}

#[test]
fn test_parse_string_literal() {
    let mut parser = RuitlParser::new("\"hello world\"".to_string());
    let result = parser.parse_string_literal().unwrap();
    assert_eq!(result, "hello world");
}

#[test]
fn test_parse_simple_component() {
    let input = r#"
component Button {
    props {
        text: String,
        disabled: bool = false,
    }
}
        "#;

    let mut parser = RuitlParser::new(input.to_string());
    let result = parser.parse().unwrap();

    assert_eq!(result.components.len(), 1);
    let component = &result.components[0];
    assert_eq!(component.name, "Button");
    assert_eq!(component.props.len(), 2);

    assert_eq!(component.props[0].name, "text");
    assert_eq!(component.props[0].prop_type, "String");
    assert!(!component.props[0].optional);

    assert_eq!(component.props[1].name, "disabled");
    assert_eq!(component.props[1].prop_type, "bool");
    // A default value does not make a property optional.
    assert!(!component.props[1].optional);
    assert_eq!(component.props[1].default_value, Some("false".to_string()));
}

#[test]
fn test_parse_simple_template() {
    let input = r#"
ruitl Greeting(name: String) {
    <div class="greeting">
        <h1>Hello, {name}!</h1>
    </div>
}
        "#;

    let mut parser = RuitlParser::new(input.to_string());
    let result = parser.parse().unwrap();

    assert_eq!(result.templates.len(), 1);
    let template = &result.templates[0];
    assert_eq!(template.name, "Greeting");
    assert_eq!(template.params.len(), 1);
    assert_eq!(template.params[0].name, "name");
    assert_eq!(template.params[0].param_type, "String");
}

#[test]
fn test_parse_import() {
    let input = r#"import "std::collections" { HashMap, Vec }"#;

    let mut parser = RuitlParser::new(input.to_string());
    let result = parser.parse().unwrap();

    assert_eq!(result.imports.len(), 1);
    let import = &result.imports[0];
    assert_eq!(import.path, "std::collections");
    assert_eq!(import.items, vec!["HashMap", "Vec"]);
}

#[test]
fn test_parse_element_with_attributes() {
    let input = r#"<button class="btn" disabled?={is_disabled}>Click me</button>"#;

    let mut parser = RuitlParser::new(input.to_string());
    let result = parser.parse_element().unwrap();

    if let TemplateAst::Element { tag, attributes, children, .. } = result {
        assert_eq!(tag, "button");
        assert_eq!(attributes.len(), 2);

        assert_eq!(attributes[0].name, "class");
        if let AttributeValue::Static(value) = &attributes[0].value {
            assert_eq!(value, "btn");
        } else {
            panic!("Expected static attribute value");
        }

        assert_eq!(attributes[1].name, "disabled");
        if let AttributeValue::Conditional(expr) = &attributes[1].value {
            assert_eq!(expr, "is_disabled");
        } else {
            panic!("Expected conditional attribute value");
        }

        assert_eq!(children.len(), 1);
        if let TemplateAst::Text(text) = &children[0] {
            assert_eq!(text, "Click me");
        } else {
            panic!("Expected text child");
        }
    } else {
        panic!("Expected element AST node");
    }
}

#[test]
fn test_parse_expression() {
    let input = r#"{user.name.to_uppercase()}"#;

    let mut parser = RuitlParser::new(input.to_string());
    let result = parser.parse_expression_node().unwrap();

    if let TemplateAst::Expression(expr) = result {
        assert_eq!(expr, "user.name.to_uppercase()");
    } else {
        panic!("Expected expression AST node");
    }
}

#[test]
fn test_parse_component_invocation() {
    let input = r#"@Button(text: "Click me", disabled: false)"#;

    let mut parser = RuitlParser::new(input.to_string());
    let result = parser.parse_component_invocation().unwrap();

    if let TemplateAst::Component { name, props } = result {
        assert_eq!(name, "Button");
        assert_eq!(props.len(), 2);

        assert_eq!(props[0].name, "text");
        assert_eq!(props[0].value, "\"Click me\"");

        assert_eq!(props[1].name, "disabled");
        assert_eq!(props[1].value, "false");
    } else {
        panic!("Expected component AST node");
    }
}

#[test]
fn test_parse_if_statement() {
    let input = r#"if show_message { <p>Hello!</p> } else { <p>Goodbye!</p> }"#;

    let mut parser = RuitlParser::new(input.to_string());
    parser.match_keyword("if");
    let result = parser.parse_if_statement().unwrap();

    if let TemplateAst::If { condition, then_branch, else_branch } = result {
        assert_eq!(condition, "show_message");
        assert!(is_element_with_tag(then_branch.as_ref(), "p"));
        assert!(else_branch.is_some());
        assert!(is_element_with_tag(else_branch.unwrap().as_ref(), "p"));
    } else {
        panic!("Expected if AST node");
    }
}

#[test]
fn test_parse_for_statement() {
    let input = r#"for item in items { <li>{item}</li> }"#;

    let mut parser = RuitlParser::new(input.to_string());
    parser.match_keyword("for");
    let result = parser.parse_for_statement().unwrap();

    if let TemplateAst::For { variable, iterable, body } = result {
        assert_eq!(variable, "item");
        assert_eq!(iterable, "items");
        assert!(is_element_with_tag(body.as_ref(), "li"));
    } else {
        panic!("Expected for AST node");
    }
}

#[test]
fn test_parse_self_closing_element() {
    let input = r#"<img src="photo.jpg" alt="Photo" />"#;

    let mut parser = RuitlParser::new(input.to_string());
    let result = parser.parse_element().unwrap();

    if let TemplateAst::Element { tag, attributes, children, self_closing } = result {
        assert_eq!(tag, "img");
        assert!(self_closing);
        assert!(children.is_empty());
        assert_eq!(attributes.len(), 2);
    } else {
        panic!("Expected element AST node");
    }
}

#[test]
fn test_parse_complex_template() {
    let input = r#"
import "std::collections" { HashMap }

component UserCard {
    props {
        user: User,
        show_email: bool = true,
    }
}

ruitl UserCard(props: UserCardProps) {
    <div class="user-card">
        <h2>{props.user.name}</h2>
        if props.show_email {
            <p class="email">{props.user.email}</p>
        }
        <ul>
            for skill in props.user.skills {
                <li>{skill}</li>
            }
        </ul>
    </div>
}
        "#;

    let mut parser = RuitlParser::new(input.to_string());
    let result = parser.parse().unwrap();

    assert_eq!(result.imports.len(), 1);
    assert_eq!(result.components.len(), 1);
    assert_eq!(result.templates.len(), 1);

    let component = &result.components[0];
    assert_eq!(component.name, "UserCard");
    assert_eq!(component.props.len(), 2);

    let template = &result.templates[0];
    assert_eq!(template.name, "UserCard");
    assert_eq!(template.params.len(), 1);
}

#[test]
fn test_parse_error_handling() {
    let input = r#"component Button { props { text String } }"#;

    let mut parser = RuitlParser::new(input.to_string());
    let result = parser.parse();

    assert!(result.is_err());
}

#[test]
fn test_parse_nested_elements() {
    let input = r#"
<div class="container">
    <header>
        <h1>Title</h1>
        <nav>
            <a href="/">Home</a>
            <a href="/about">About</a>
        </nav>
    </header>
    <main>
        <p>Content goes here</p>
    </main>
</div>
        "#;

    let mut parser = RuitlParser::new(input.to_string());
    parser.skip_whitespace();
    let result = parser.parse_element().unwrap();

    if let TemplateAst::Element { tag, children, .. } = result {
        assert_eq!(tag, "div");
        assert_eq!(children.len(), 2);
    } else {
        panic!("Expected element AST node");
    }
}

#[test]
fn malformed_prop_reports_its_line_and_column() {
    let input = "component Button {\n    props {\n        text String\n    }\n}\n";
    let mut parser = RuitlParser::new(input.to_string());
    let err = parser.parse().unwrap_err();
    assert_eq!(err.line, 3);
    assert_eq!(err.column, 14);
    assert_eq!(err.message, "Expected ':' after prop name");

    let mut single = RuitlParser::new("component Button { props { text String } }".to_string());
    let err = single.parse().unwrap_err();
    assert_eq!(err.line, 1);
    assert_eq!(err.column, 33);
}

#[test]
fn unknown_top_level_keyword_is_an_error() {
    let mut parser = RuitlParser::new("\n  widget Button {}".to_string());
    let err = parser.parse().unwrap_err();
    assert_eq!(err.message, "Expected 'import', 'component', or 'ruitl'");
    assert_eq!((err.line, err.column), (2, 3));
}

#[test]
fn expression_scan_skips_nested_terminators() {
    let mut parser = RuitlParser::new("f(a, b), rest".to_string());
    let expr = parser.parse_expression_until(&[',', ')']).unwrap();
    assert_eq!(expr, "f(a, b)");
    assert!(parser.check_char(','));

    let mut braces = RuitlParser::new("{ x } }".to_string());
    assert_eq!(braces.parse_expression_until(&['}']).unwrap(), "{ x }");

    let mut unterminated = RuitlParser::new("  a + b  ".to_string());
    assert_eq!(unterminated.parse_expression_until(&['}']).unwrap(), "a + b");
    assert!(unterminated.is_at_end());
}

#[test]
fn type_scan_respects_generics() {
    let mut parser = RuitlParser::new("HashMap<String, Vec<u8>>, next".to_string());
    assert_eq!(parser.parse_type().unwrap(), "HashMap<String, Vec<u8>>");
    assert!(parser.check_char(','));
}

#[test]
fn optional_marker_and_default() {
    let input = "component C { props { a: String?, b: u32 = 3 } }";
    let mut parser = RuitlParser::new(input.to_string());
    let file = parser.parse().unwrap();
    let props = &file.components[0].props;
    assert_eq!(props[0].prop_type, "String");
    assert!(props[0].optional);
    assert_eq!(props[0].default_value, None);
    assert!(!props[1].optional);
    assert_eq!(props[1].default_value, Some("3".to_string()));
}

#[test]
fn string_literal_escapes() {
    let mut parser = RuitlParser::new(r#""a\n\"b\"\\c" tail"#.to_string());
    assert_eq!(parser.parse_string_literal().unwrap(), "a\n\"b\"\\c");
    let mut open = RuitlParser::new("\"never closed".to_string());
    assert!(open.parse_string_literal().is_err());
}

#[test]
fn doctype_and_comments() {
    let input = "// leading comment\n/* block */ ruitl Page() { <!DOCTYPE html> <p>x</p> }";
    let mut parser = RuitlParser::new(input.to_string());
    let file = parser.parse().unwrap();
    match &file.templates[0].body {
        TemplateAst::Fragment(nodes) => {
            assert_eq!(nodes.len(), 2);
            match &nodes[0] {
                TemplateAst::Text(t) => assert_eq!(t, "<!DOCTYPE html>"),
                _ => panic!("expected the doctype as text"),
            }
        },
        _ => panic!("expected a fragment"),
    }
}

#[test]
fn stray_closing_brace_in_element_is_an_error() {
    let mut parser = RuitlParser::new("<div> } </div>".to_string());
    assert!(parser.parse_element().is_err());
    let mut unclosed = RuitlParser::new("ruitl B() { <button>Click me }".to_string());
    assert!(unclosed.parse().is_err());
}

#[test]
fn match_arms_are_parsed() {
    let input = r#"match kind { "a" => { <b>A</b> } _ => { <i>other</i> } }"#;
    let mut parser = RuitlParser::new(input.to_string());
    assert!(parser.match_keyword("match"));
    match parser.parse_match_statement().unwrap() {
        TemplateAst::Match { expression, arms } => {
            assert_eq!(expression, "kind");
            assert_eq!(arms.len(), 2);
            assert_eq!(arms[0].pattern, "\"a\"");
            assert_eq!(arms[1].pattern, "_");
        },
        _ => panic!("expected a match"),
    }
}

#[test]
fn keyword_helpers() {
    let parser = RuitlParser::new("format x".to_string());
    assert!(!parser.at_keyword(&["for", "if"]));
    let parser = RuitlParser::new("for x".to_string());
    assert!(parser.at_keyword(&["if", "for"]));
    assert_eq!(parser.peek_string(3), "for");
    assert_eq!(parser.peek_string(30), "");
    assert_eq!(parser.peek_char(), 'o');
    assert_eq!(parser.current_char(), 'f');
    let closing = RuitlParser::new("  </div> rest".to_string());
    assert!(closing.check_closing_tag("div"));
    assert!(!closing.check_closing_tag("span"));
}

#[test]
fn terminator_inside_any_open_bracket_does_not_stop() {
    let mut parser = RuitlParser::new("({ a".to_string());
    assert_eq!(parser.parse_expression_until(&['{']).unwrap(), "({ a");
    assert!(parser.is_at_end());

    let input = "if xs.iter().any(|x| { x.ok }) { <p>y</p> }";
    let mut parser = RuitlParser::new(input.to_string());
    assert!(parser.match_keyword("if"));
    match parser.parse_if_statement().unwrap() {
        TemplateAst::If { condition, then_branch, .. } => {
            assert_eq!(condition, "xs.iter().any(|x| { x.ok })");
            assert!(is_element_with_tag(then_branch.as_ref(), "p"));
        },
        _ => panic!("expected an if"),
    }
}
