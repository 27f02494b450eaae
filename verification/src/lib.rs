//! wasmchi: a small language compiled to WebAssembly.
//!
//! `parse` turns source text into a `Program`; `compile_to_wasm` turns it
//! into the bytes of a WebAssembly module whose `main` is exported.
pub mod ast;
pub mod lexer;
pub mod parser;
pub mod parse_laws;
pub mod wasm;
pub mod wasm_api;
pub mod codegen;
pub mod vish;
pub mod auto_host;
pub mod compile_laws;
pub mod host_js;

use vstd::prelude::*;
use vstd::string::StringSliceAdditionalSpecFns;
pub use crate::ast::{
    BinOp, Decimal, Expr, Function, ImportFn, Item, Param, Program, ProgramV, Stmt, Type,
};
use crate::codegen::{CodegenError, CodegenErrorV, emit_module, spec_emit};
use crate::parser::{ParseError, ParseErrorV, parse_program, spec_parse_source};

verus! {

#[derive(Debug)]
pub enum CompileError {
    Parse(ParseError),
    Codegen(CodegenError),
}

pub enum CompileErrorV {
    Parse(ParseErrorV),
    Codegen(CodegenErrorV),
}

impl View for CompileError {
    type V = CompileErrorV;

    open spec fn view(&self) -> CompileErrorV {
        match self {
            CompileError::Parse(e) => CompileErrorV::Parse(e@),
            CompileError::Codegen(e) => CompileErrorV::Codegen(e@),
        }
    }
}

/// The module bytes a source text compiles to, or the first error.
pub open spec fn spec_compile(src: Seq<u8>) -> Result<Seq<u8>, CompileErrorV> {
    match spec_parse_source(src) {
        Err(e) => Err(CompileErrorV::Parse(e)),
        Ok(p) => match spec_emit(p) {
            Err(e) => Err(CompileErrorV::Codegen(e)),
            Ok(b) => Ok(b),
        },
    }
}

/// Parses a source text into a program.
pub fn parse(source: &str) -> (r: Result<Program, ParseError>)
    ensures
        match r {
            Ok(p) => spec_parse_source(source.spec_bytes()) == Ok::<_, ParseErrorV>(p@),
            Err(e) => spec_parse_source(source.spec_bytes()) == Err::<ProgramV, _>(e@),
        },
{
    parse_program(source)
}

/// Compiles a source text to the bytes of a WebAssembly module.
pub fn compile_to_wasm(source: &str) -> (r: Result<Vec<u8>, CompileError>)
    ensures
        match r {
            Ok(b) => spec_compile(source.spec_bytes()) == Ok::<_, CompileErrorV>(b@),
            Err(e) => spec_compile(source.spec_bytes()) == Err::<Seq<u8>, _>(e@),
        },
{
    let program = match parse(source) {
        Ok(p) => p,
        Err(e) => {
            return Err(CompileError::Parse(e));
        },
    };
    match emit_module(&program) {
        Ok(b) => Ok(b),
        Err(e) => Err(CompileError::Codegen(e)),
    }
}

} // verus!
