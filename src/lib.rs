//! Compiler for a small declarative UI template language, together with the
//! HTML node model and renderer that the generated code builds on.
use vstd::prelude::*;

pub mod codegen;
pub mod component;
pub mod error;
pub mod grammar;
pub mod html;
pub mod naming;
pub mod parser;
pub mod prelude;
pub mod render;
pub mod text;

use crate::codegen::{
    gen_file, names_orphan_component, names_orphan_template, CodeGenerator, GenerationError,
    GenerationErrorKind,
};
use crate::grammar::g_file;
use crate::parser::{error_at, located, ParseError, RuitlParser};

verus! {

/// The version of this library.
pub const VERSION: &'static str = "0.1.0";

/// Why a source file could not be compiled.
#[derive(Debug, Clone)]
pub enum CompileError {
    /// The source text is malformed.
    Parse(ParseError),
    /// The parsed file cannot be lowered.
    Generation(GenerationError),
}

/// What compiling `s` gives: the position of the first parse error, or the
/// generated source, or the kind of the first generation error.
pub enum Compiled {
    ParseErrorAt(int),
    Source(Seq<char>),
    GenerationFailed(GenerationErrorKind),
}

/// The result of compiling `s`, as a function of `s` alone.
pub open spec fn compiled(s: Seq<char>) -> Compiled {
    match g_file(s) {
        Err(p) => Compiled::ParseErrorAt(p),
        Ok(f) => match gen_file(f) {
            Ok(code) => Compiled::Source(code),
            Err(kind) => Compiled::GenerationFailed(kind),
        },
    }
}

/// Compiles template source text into Rust source: the text is parsed by
/// the grammar and the file is lowered; the first failure ends the work and
/// no output is produced.
pub fn compile(source: &str) -> (r: Result<String, CompileError>)
    ensures
        source@.len() < isize::MAX ==> match compiled(source@) {
            Compiled::ParseErrorAt(p) => r matches Err(CompileError::Parse(e)) && error_at(
                source@,
                p,
                e,
            ) && located(source@, e),
            Compiled::Source(code) => r is Ok && r->Ok_0@ == code,
            Compiled::GenerationFailed(kind) => r matches Err(CompileError::Generation(e))
                && e.kind == kind && (kind == GenerationErrorKind::MissingComponent
                ==> names_orphan_template(
                (g_file(source@)->Ok_0).templates,
                (g_file(source@)->Ok_0).components,
                e.message@,
            )) && (kind == GenerationErrorKind::MissingTemplate ==> names_orphan_component(
                (g_file(source@)->Ok_0).components,
                (g_file(source@)->Ok_0).templates,
                e.message@,
            )),
        },
        source@.len() >= isize::MAX ==> r is Err,
{
    if source.unicode_len() >= isize::MAX as usize {
        let e = ParseError { message: "Input too long".to_string(), line: 1, column: 1 };
        return Err(CompileError::Parse(e));
    }
    let mut parser = RuitlParser::new(source.to_string());
    let file = match parser.parse() {
        Ok(f) => f,
        Err(e) => return Err(CompileError::Parse(e)),
    };
    let generator = CodeGenerator::new(file);
    match generator.generate() {
        Ok(code) => Ok(code),
        Err(e) => Err(CompileError::Generation(e)),
    }
}

/// Compiling is a function of the text alone: equal texts compile to equal
/// results.
pub proof fn lemma_compile_is_pure(a: Seq<char>, b: Seq<char>)
    requires
        a == b,
    ensures
        compiled(a) == compiled(b),
{
}

/// Sets the library up; there is nothing to prepare, so it always succeeds.
pub fn init() -> (r: Result<(), CompileError>)
    ensures
        r is Ok,
{
    Ok(())
}

} // verus!
