use ruitl::codegen::{is_primitive_type, transform_variable_access, CodeGenerator, GenerationErrorKind};
use ruitl::parser::{
    Attribute, AttributeValue, ComponentDef, PropDef, PropValue, RuitlFile, TemplateAst, TemplateDef,
};

fn create_test_component() -> ComponentDef {
    ComponentDef {
        name: "Button".to_string(),
        props: vec![
            PropDef {
                name: "text".to_string(),
                prop_type: "String".to_string(),
                optional: false,
                default_value: None,
            },
            PropDef {
                name: "disabled".to_string(),
                prop_type: "bool".to_string(),
                optional: true,
                default_value: Some("false".to_string()),
            },
        ],
        generics: vec![],
    }
}

fn create_test_template() -> TemplateDef {
    TemplateDef {
        name: "Button".to_string(),
        params: vec![],
        body: TemplateAst::Element {
            tag: "button".to_string(),
            attributes: vec![
                Attribute {
                    name: "class".to_string(),
                    value: AttributeValue::Static("btn".to_string()),
                },
                Attribute {
                    name: "disabled".to_string(),
                    value: AttributeValue::Conditional("props.disabled.unwrap_or(false)".to_string()),
                },
            ],
            children: vec![TemplateAst::Expression("props.text".to_string())],
            self_closing: false,
        },
    }
}

fn empty_generator() -> CodeGenerator {
    CodeGenerator::new(RuitlFile { components: vec![], templates: vec![], imports: vec![] })
}

#[test]
fn test_generate_props_struct() {
    let component = create_test_component();
    let generator = empty_generator();

    let code = generator.generate_props_struct(&component).unwrap();

    assert!(code.contains("struct ButtonProps"));
    assert!(code.contains("text: String"));
    assert!(code.contains("disabled: Option<bool>"));
    assert!(code.contains("impl ruitl::component::ComponentProps"));
}

#[test]
fn test_generate_element_code() {
    let generator = empty_generator();

    let attributes = vec![Attribute {
        name: "class".to_string(),
        value: AttributeValue::Static("btn".to_string()),
    }];

    let children = vec![TemplateAst::Text("Click me".to_string())];

    let code = generator.generate_element_code("button", &attributes, &children, false).unwrap();

    assert!(code.contains("HtmlElement::new"));
    assert!(code.contains("attr"));
    assert!(code.contains("child"));
}

#[test]
fn test_generate_expression_code() {
    let generator = empty_generator();

    let ast = TemplateAst::Expression("user.name".to_string());
    let code = generator.generate_ast_code(&ast).unwrap();

    assert!(code.contains("user.name"));
    assert!(code.contains("Html::text"));
}

#[test]
fn test_generate_if_code() {
    let generator = empty_generator();

    let then_branch = TemplateAst::Text("Yes".to_string());
    let else_branch = Some(Box::new(TemplateAst::Text("No".to_string())));

    let code = generator.generate_if_code("show_message", &then_branch, &else_branch).unwrap();

    assert!(code.contains("if show_message"));
    assert!(code.contains("else"));
}

#[test]
fn test_generate_for_code() {
    let generator = empty_generator();

    let body = TemplateAst::Element {
        tag: "li".to_string(),
        attributes: vec![],
        children: vec![TemplateAst::Expression("item".to_string())],
        self_closing: false,
    };

    let code = generator.generate_for_code("item", "items", &body).unwrap();

    assert!(code.contains("into_iter"));
    assert!(code.contains("map"));
    assert!(code.contains("item"));
}

#[test]
fn test_generate_component_invocation() {
    let generator = empty_generator();

    let props = vec![
        PropValue { name: "text".to_string(), value: "\"Click me\"".to_string() },
        PropValue { name: "disabled".to_string(), value: "false".to_string() },
    ];

    let code = generator.generate_component_invocation_code("Button", &props).unwrap();

    assert!(code.contains("Button"));
    assert!(code.contains("ButtonProps"));
    assert!(code.contains("text: \"Click me\""));
    assert!(code.contains("disabled: false"));
}

#[test]
fn test_full_generation() {
    let file = RuitlFile {
        components: vec![create_test_component()],
        templates: vec![create_test_template()],
        imports: vec![],
    };

    let generator = CodeGenerator::new(file);
    let code = generator.generate().unwrap();

    assert!(code.contains("struct ButtonProps"));
    assert!(code.contains("impl Component for Button"));
    assert!(code.contains("fn render"));
}

#[test]
fn exact_code_of_small_nodes() {
    let generator = empty_generator();
    let text = generator.generate_ast_code(&TemplateAst::Text("Hi \"you\"".to_string())).unwrap();
    assert_eq!(text, "ruitl::html::Html::text(\"Hi \\\"you\\\"\")");
    let blank = generator.generate_ast_code(&TemplateAst::Text("  \n ".to_string())).unwrap();
    assert_eq!(blank, "ruitl::html::Html::Empty");
    let raw = generator.generate_ast_code(&TemplateAst::Raw("<b>".to_string())).unwrap();
    assert_eq!(raw, "ruitl::html::Html::raw(\"<b>\")");
    let frag = generator
        .generate_ast_code(&TemplateAst::Fragment(vec![
            TemplateAst::Raw("a".to_string()),
            TemplateAst::Raw("b".to_string()),
        ]))
        .unwrap();
    assert_eq!(frag, "ruitl::html::Html::fragment(vec![ruitl::html::Html::raw(\"a\"), ruitl::html::Html::raw(\"b\")])");
}

#[test]
fn if_without_else_yields_empty() {
    let generator = empty_generator();
    let code = generator
        .generate_if_code("flag", &TemplateAst::Raw("x".to_string()), &None)
        .unwrap();
    assert_eq!(code, "if flag { ruitl::html::Html::raw(\"x\") } else { ruitl::html::Html::Empty }");
}

#[test]
fn for_collects_one_node_per_item() {
    let generator = empty_generator();
    let code = generator.generate_for_code("x", "xs", &TemplateAst::Raw("r".to_string())).unwrap();
    assert_eq!(
        code,
        "ruitl::html::Html::fragment(xs.into_iter().map(|x| ruitl::html::Html::raw(\"r\")).collect::<Vec<_>>())"
    );
}

#[test]
fn conditional_attribute_code() {
    let generator = empty_generator();
    let attr = Attribute {
        name: "disabled".to_string(),
        value: AttributeValue::Conditional("is_off".to_string()),
    };
    assert_eq!(
        generator.generate_attribute_code(&attr).unwrap(),
        ".attr_if(\"disabled\", is_off, \"disabled\")"
    );
}

#[test]
fn invalid_expression_is_rejected() {
    let generator = empty_generator();
    let err = generator.generate_ast_code(&TemplateAst::Expression("a +".to_string())).unwrap_err();
    assert_eq!(err.kind, GenerationErrorKind::InvalidExpression);
    let bad_attr = Attribute {
        name: "x".to_string(),
        value: AttributeValue::Expression("(".to_string()),
    };
    assert!(generator.generate_attribute_code(&bad_attr).is_err());
}

#[test]
fn invalid_type_is_rejected() {
    let generator = empty_generator();
    let mut component = create_test_component();
    component.props[0].prop_type = "Vec<".to_string();
    let err = generator.generate_props_struct(&component).unwrap_err();
    assert_eq!(err.kind, GenerationErrorKind::InvalidType);
}

#[test]
fn name_mismatches_are_rejected() {
    let orphan_template = CodeGenerator::new(RuitlFile {
        components: vec![],
        templates: vec![create_test_template()],
        imports: vec![],
    });
    assert_eq!(orphan_template.generate().unwrap_err().kind, GenerationErrorKind::MissingComponent);
    let orphan_component = CodeGenerator::new(RuitlFile {
        components: vec![create_test_component()],
        templates: vec![],
        imports: vec![],
    });
    assert_eq!(orphan_component.generate().unwrap_err().kind, GenerationErrorKind::MissingTemplate);
}

#[test]
fn bindings_copy_scalars_and_borrow_the_rest() {
    let generator = empty_generator();
    let bindings = generator.generate_prop_bindings(&create_test_component());
    assert_eq!(bindings, "        let text = &props.text;\n        let disabled = props.disabled;\n");
    assert!(is_primitive_type(" u32 "));
    assert!(!is_primitive_type("String"));
    assert!(!is_primitive_type("Option<bool>"));
}

#[test]
fn nullable_rewrites() {
    assert_eq!(
        transform_variable_access("props.name.unwrap_or_default()"),
        "props.name.as_deref().unwrap_or(\"\")"
    );
    assert_eq!(
        transform_variable_access("props.name.unwrap_or(String::new())"),
        "props.name.as_deref().unwrap_or(\"\")"
    );
    assert_eq!(transform_variable_access("if let Some(x) = props.name"), "if let Some(x) = &props.name");
    assert_eq!(transform_variable_access("a = props.b"), "a = props.b");
    assert_eq!(transform_variable_access("plain"), "plain");
}

#[test]
fn mismatch_errors_name_the_orphan() {
    let orphan_template = CodeGenerator::new(RuitlFile {
        components: vec![],
        templates: vec![create_test_template()],
        imports: vec![],
    });
    assert_eq!(
        orphan_template.generate().unwrap_err().message,
        "No component definition found for template 'Button'"
    );
    let orphan_component = CodeGenerator::new(RuitlFile {
        components: vec![create_test_component()],
        templates: vec![],
        imports: vec![],
    });
    assert_eq!(orphan_component.generate().unwrap_err().message, "No template found for component 'Button'");
}
