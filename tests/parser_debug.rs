use ruitl::parser::RuitlParser;

#[test]
fn test_simple_component_only() {
    let template = r#"
component Button {
    props {
        text: String,
    }
}
"#;

    let mut parser = RuitlParser::new(template.to_string());
    let ast = parser.parse().expect("Failed to parse simple component");
    assert_eq!(ast.components.len(), 1);
    assert_eq!(ast.templates.len(), 0);
}

// `templ` is not one of the top-level keywords (`import`, `component`,
// `ruitl`), so these sources are rejected where the keyword stands.

#[test]
fn test_simple_template_only() {
    let template = r#"
templ Button() {
    <button>Click me</button>
}
"#;

    let mut parser = RuitlParser::new(template.to_string());
    let err = parser.parse().unwrap_err();
    assert_eq!((err.line, err.column), (2, 1));
    assert_eq!(err.message, "Expected 'import', 'component', or 'ruitl'");
}

#[test]
fn test_template_with_simple_params() {
    let template = r#"
templ Button(text: String) {
    <button>{text}</button>
}
"#;

    let mut parser = RuitlParser::new(template.to_string());
    let err = parser.parse().unwrap_err();
    assert_eq!((err.line, err.column), (2, 1));
}

#[test]
fn test_template_with_props_type() {
    let template = r#"
templ Button(props: ButtonProps) {
    <button>Click</button>
}
"#;

    let mut parser = RuitlParser::new(template.to_string());
    match parser.parse() {
        Ok(ast) => println!("templates: {}", ast.templates.len()),
        Err(e) => println!("error: {:?}", e),
    }
}

#[test]
fn test_full_component_and_template() {
    let template = r#"
component Button {
    props {
        text: String,
    }
}

templ Button(props: ButtonProps) {
    <button>{props.text}</button>
}
"#;

    let mut parser = RuitlParser::new(template.to_string());
    match parser.parse() {
        Ok(ast) => println!("components: {}, templates: {}", ast.components.len(), ast.templates.len()),
        Err(e) => {
            println!("error: {:?}", e);
            assert_eq!((e.line, e.column), (8, 1));
        },
    }
}

#[test]
fn test_debug_character_by_character() {
    let template = "templ Button(props: ButtonProps) {";

    let mut parser = RuitlParser::new(template.to_string());
    match parser.parse() {
        Ok(_) => println!("parsed"),
        Err(e) => println!("error: {:?}", e),
    }
}

#[test]
fn test_minimal_failing_case() {
    let template = r#"templ Button(props: ButtonProps) {
    <button>test</button>
}"#;

    let mut parser = RuitlParser::new(template.to_string());
    match parser.parse() {
        Ok(ast) => println!("templates: {}", ast.templates.len()),
        Err(e) => println!("error: {:?}", e),
    }
}

#[test]
fn ruitl_keyword_parses_the_same_sources() {
    let template = r#"
component Button {
    props {
        text: String,
    }
}

ruitl Button(props: ButtonProps) {
    <button>{props.text}</button>
}
"#;
    let mut parser = RuitlParser::new(template.to_string());
    let ast = parser.parse().unwrap();
    assert_eq!(ast.components.len(), 1);
    assert_eq!(ast.templates.len(), 1);
    assert_eq!(ast.templates[0].params[0].param_type, "ButtonProps");
}
