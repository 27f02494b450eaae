//! A small V-like language with `i32` values only, compiled straight to
//! WebAssembly with constant folding, inlining of small helpers, removal of
//! unreachable functions and a peephole pass.
pub mod lex;
pub mod parse;
pub mod wasmgen;
pub mod laws;
