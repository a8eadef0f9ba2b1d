//! The names that generated code brings into scope.
pub use crate::codegen::HtmlElementExt;
pub use crate::component::{Component, ComponentContext, ComponentProps, EmptyProps};
pub use crate::error::RuitlError;
pub use crate::html::{Html, HtmlAttribute, HtmlElement};
