//! The error that components, render functions and the tools around them
//! report.
use vstd::prelude::*;
use crate::text::push_str;

verus! {

/// What kind of step failed.
#[derive(Debug, Clone, Copy, PartialEq, Eq, Structural)]
pub enum ErrorKind {
    Template,
    Component,
    Render,
    Io,
    Config,
    Build,
    Server,
    Route,
    StaticGen,
    Parse,
    Codegen,
    Generic,
}

/// The words that introduce an error of kind `k` in its message.
pub open spec fn kind_prefix(k: ErrorKind) -> Seq<char> {
    match k {
        ErrorKind::Template => "Template error: "@,
        ErrorKind::Component => "Component error: "@,
        ErrorKind::Render => "Render error: "@,
        ErrorKind::Io => "IO error: "@,
        ErrorKind::Config => "Configuration error: "@,
        ErrorKind::Build => "Build error: "@,
        ErrorKind::Server => "Server error: "@,
        ErrorKind::Route => "Route error: "@,
        ErrorKind::StaticGen => "Static generation error: "@,
        ErrorKind::Parse => "Parse error: "@,
        ErrorKind::Codegen => "Code generation error: "@,
        ErrorKind::Generic => "Error: "@,
    }
}

/// A failure, with its kind and the words that describe it.
#[derive(Debug, Clone)]
pub struct RuitlError {
    pub kind: ErrorKind,
    pub message: String,
}

impl RuitlError {
    fn with_kind(kind: ErrorKind, message: &str) -> (e: Self)
        ensures
            e.kind == kind,
            e.message@ == message@,
    {
        RuitlError { kind, message: message.to_string() }
    }

    /// An error of kind `Template` with `message`.
    pub fn template(message: &str) -> (e: Self)
        ensures
            e.kind == ErrorKind::Template,
            e.message@ == message@,
    {
        Self::with_kind(ErrorKind::Template, message)
    }

    /// An error of kind `Component` with `message`.
    pub fn component(message: &str) -> (e: Self)
        ensures
            e.kind == ErrorKind::Component,
            e.message@ == message@,
    {
        Self::with_kind(ErrorKind::Component, message)
    }

    /// An error of kind `Render` with `message`.
    pub fn render(message: &str) -> (e: Self)
        ensures
            e.kind == ErrorKind::Render,
            e.message@ == message@,
    {
        Self::with_kind(ErrorKind::Render, message)
    }

    /// An error of kind `Io` with `message`.
    pub fn io(message: &str) -> (e: Self)
        ensures
            e.kind == ErrorKind::Io,
            e.message@ == message@,
    {
        Self::with_kind(ErrorKind::Io, message)
    }

    /// An error of kind `Config` with `message`.
    pub fn config(message: &str) -> (e: Self)
        ensures
            e.kind == ErrorKind::Config,
            e.message@ == message@,
    {
        Self::with_kind(ErrorKind::Config, message)
    }

    /// An error of kind `Build` with `message`.
    pub fn build(message: &str) -> (e: Self)
        ensures
            e.kind == ErrorKind::Build,
            e.message@ == message@,
    {
        Self::with_kind(ErrorKind::Build, message)
    }

    /// An error of kind `Server` with `message`.
    pub fn server(message: &str) -> (e: Self)
        ensures
            e.kind == ErrorKind::Server,
            e.message@ == message@,
    {
        Self::with_kind(ErrorKind::Server, message)
    }

    /// An error of kind `Route` with `message`.
    pub fn route(message: &str) -> (e: Self)
        ensures
            e.kind == ErrorKind::Route,
            e.message@ == message@,
    {
        Self::with_kind(ErrorKind::Route, message)
    }

    /// An error of kind `StaticGen` with `message`.
    pub fn static_gen(message: &str) -> (e: Self)
        ensures
            e.kind == ErrorKind::StaticGen,
            e.message@ == message@,
    {
        Self::with_kind(ErrorKind::StaticGen, message)
    }

    /// An error of kind `Parse` with `message`.
    pub fn parse(message: &str) -> (e: Self)
        ensures
            e.kind == ErrorKind::Parse,
            e.message@ == message@,
    {
        Self::with_kind(ErrorKind::Parse, message)
    }

    /// An error of kind `Codegen` with `message`.
    pub fn codegen(message: &str) -> (e: Self)
        ensures
            e.kind == ErrorKind::Codegen,
            e.message@ == message@,
    {
        Self::with_kind(ErrorKind::Codegen, message)
    }

    /// An error of kind `Generic` with `message`.
    pub fn generic(message: &str) -> (e: Self)
        ensures
            e.kind == ErrorKind::Generic,
            e.message@ == message@,
    {
        Self::with_kind(ErrorKind::Generic, message)
    }

    /// The message introduced by the kind, such as `Render error: boom`.
    pub fn message(&self) -> (r: String)
        ensures
            r@ == kind_prefix(self.kind) + self.message@,
    {
        let mut r = String::new();
        let prefix = match self.kind {
            ErrorKind::Template => "Template error: ",
            ErrorKind::Component => "Component error: ",
            ErrorKind::Render => "Render error: ",
            ErrorKind::Io => "IO error: ",
            ErrorKind::Config => "Configuration error: ",
            ErrorKind::Build => "Build error: ",
            ErrorKind::Server => "Server error: ",
            ErrorKind::Route => "Route error: ",
            ErrorKind::StaticGen => "Static generation error: ",
            ErrorKind::Parse => "Parse error: ",
            ErrorKind::Codegen => "Code generation error: ",
            ErrorKind::Generic => "Error: ",
        };
        push_str(&mut r, prefix);
        push_str(&mut r, self.message.as_str());
        r
    }

    /// Whether this is an error of kind `Template`.
    pub fn is_template(&self) -> (r: bool)
        ensures
            r == (self.kind == ErrorKind::Template),
    {
        self.kind == ErrorKind::Template
    }

    /// Whether this is an error of kind `Component`.
    pub fn is_component(&self) -> (r: bool)
        ensures
            r == (self.kind == ErrorKind::Component),
    {
        self.kind == ErrorKind::Component
    }

    /// Whether this is an error of kind `Render`.
    pub fn is_render(&self) -> (r: bool)
        ensures
            r == (self.kind == ErrorKind::Render),
    {
        self.kind == ErrorKind::Render
    }

    /// Whether this is an error of kind `Io`.
    pub fn is_io(&self) -> (r: bool)
        ensures
            r == (self.kind == ErrorKind::Io),
    {
        self.kind == ErrorKind::Io
    }

    /// Whether this is an error of kind `Config`.
    pub fn is_config(&self) -> (r: bool)
        ensures
            r == (self.kind == ErrorKind::Config),
    {
        self.kind == ErrorKind::Config
    }

    /// Whether this is an error of kind `Build`.
    pub fn is_build(&self) -> (r: bool)
        ensures
            r == (self.kind == ErrorKind::Build),
    {
        self.kind == ErrorKind::Build
    }

    /// Whether this is an error of kind `Server`.
    pub fn is_server(&self) -> (r: bool)
        ensures
            r == (self.kind == ErrorKind::Server),
    {
        self.kind == ErrorKind::Server
    }
}

/// An error with a context put in front of its message.
pub open spec fn in_context(context: Seq<char>, e: RuitlError) -> Seq<char> {
    context + ": "@ + kind_prefix(e.kind) + e.message@
}

/// A failure as the error of another kind, with a context in front of its
/// message.
fn rewrap(e: RuitlError, kind: ErrorKind, context: &str) -> (r: RuitlError)
    ensures
        r.kind == kind,
        r.message@ == in_context(context@, e),
{
    let mut m = String::new();
    push_str(&mut m, context);
    push_str(&mut m, ": ");
    let original = e.message();
    push_str(&mut m, original.as_str());
    assert(m@ =~= in_context(context@, e));
    RuitlError { kind, message: m }
}

/// Context for failed results: each method turns the error into one of its
/// own kind whose message starts with the context.
pub trait ResultExt<T>: Sized {
    fn template_context(self, context: &str) -> Result<T, RuitlError>;

    fn component_context(self, context: &str) -> Result<T, RuitlError>;

    fn render_context(self, context: &str) -> Result<T, RuitlError>;

    fn config_context(self, context: &str) -> Result<T, RuitlError>;

    fn build_context(self, context: &str) -> Result<T, RuitlError>;

    fn server_context(self, context: &str) -> Result<T, RuitlError>;

    fn static_gen_context(self, context: &str) -> Result<T, RuitlError>;
}

impl<T> ResultExt<T> for Result<T, RuitlError> {
    fn template_context(self, context: &str) -> (r: Result<T, RuitlError>)
        ensures
            self is Ok ==> r == self,
            self is Err ==> r is Err && r->Err_0.kind == ErrorKind::Template && r->Err_0.message@
                == in_context(context@, self->Err_0),
    {
        match self {
            Ok(v) => Ok(v),
            Err(e) => Err(rewrap(e, ErrorKind::Template, context)),
        }
    }

    fn component_context(self, context: &str) -> (r: Result<T, RuitlError>)
        ensures
            self is Ok ==> r == self,
            self is Err ==> r is Err && r->Err_0.kind == ErrorKind::Component && r->Err_0.message@
                == in_context(context@, self->Err_0),
    {
        match self {
            Ok(v) => Ok(v),
            Err(e) => Err(rewrap(e, ErrorKind::Component, context)),
        }
    }

    fn render_context(self, context: &str) -> (r: Result<T, RuitlError>)
        ensures
            self is Ok ==> r == self,
            self is Err ==> r is Err && r->Err_0.kind == ErrorKind::Render && r->Err_0.message@
                == in_context(context@, self->Err_0),
    {
        match self {
            Ok(v) => Ok(v),
            Err(e) => Err(rewrap(e, ErrorKind::Render, context)),
        }
    }

    fn config_context(self, context: &str) -> (r: Result<T, RuitlError>)
        ensures
            self is Ok ==> r == self,
            self is Err ==> r is Err && r->Err_0.kind == ErrorKind::Config && r->Err_0.message@
                == in_context(context@, self->Err_0),
    {
        match self {
            Ok(v) => Ok(v),
            Err(e) => Err(rewrap(e, ErrorKind::Config, context)),
        }
    }

    fn build_context(self, context: &str) -> (r: Result<T, RuitlError>)
        ensures
            self is Ok ==> r == self,
            self is Err ==> r is Err && r->Err_0.kind == ErrorKind::Build && r->Err_0.message@
                == in_context(context@, self->Err_0),
    {
        match self {
            Ok(v) => Ok(v),
            Err(e) => Err(rewrap(e, ErrorKind::Build, context)),
        }
    }

    fn server_context(self, context: &str) -> (r: Result<T, RuitlError>)
        ensures
            self is Ok ==> r == self,
            self is Err ==> r is Err && r->Err_0.kind == ErrorKind::Server && r->Err_0.message@
                == in_context(context@, self->Err_0),
    {
        match self {
            Ok(v) => Ok(v),
            Err(e) => Err(rewrap(e, ErrorKind::Server, context)),
        }
    }

    fn static_gen_context(self, context: &str) -> (r: Result<T, RuitlError>)
        ensures
            self is Ok ==> r == self,
            self is Err ==> r is Err && r->Err_0.kind == ErrorKind::StaticGen && r->Err_0.message@
                == in_context(context@, self->Err_0),
    {
        match self {
            Ok(v) => Ok(v),
            Err(e) => Err(rewrap(e, ErrorKind::StaticGen, context)),
        }
    }
}

} // verus!
