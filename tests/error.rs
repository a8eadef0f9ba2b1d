use ruitl::error::{ErrorKind, ResultExt, RuitlError};

#[test]
fn test_error_creation() {
    let err = RuitlError::template("test template error");
    assert!(err.is_template());
    assert!(!err.is_component());
    assert!(err.message().contains("test template error"));
}

#[test]
fn test_error_types() {
    assert!(RuitlError::component("test").is_component());
    assert!(RuitlError::render("test").is_render());
    assert!(RuitlError::config("test").is_config());
    assert!(RuitlError::build("test").is_build());
    assert!(RuitlError::server("test").is_server());
    assert!(RuitlError::generic("test").message().contains("test"));
}

#[test]
fn result_context_wraps_the_error() {
    let result: Result<(), RuitlError> = Err(RuitlError::io("file not found"));
    let err = result.template_context("Failed to load template").unwrap_err();
    assert!(err.is_template());
    assert_eq!(err.message(), "Template error: Failed to load template: IO error: file not found");
    let fine: Result<u8, RuitlError> = Ok(3);
    assert_eq!(fine.static_gen_context("x").unwrap(), 3);
    let built = Err::<(), RuitlError>(RuitlError::parse("bad")).build_context("step").unwrap_err();
    assert_eq!(built.kind, ErrorKind::Build);
    assert_eq!(RuitlError::codegen("c").message(), "Code generation error: c");
    assert_eq!(RuitlError::static_gen("s").message(), "Static generation error: s");
    assert_eq!(RuitlError::route("r").message(), "Route error: r");
    assert!(RuitlError::io("i").is_io());
}
