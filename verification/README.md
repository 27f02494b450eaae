# wasmchi

Two small languages compiled straight to WebAssembly, with the compilers
written in Verus and their behaviour stated in contracts.

- **wasmchi** (TS × V syntax, `.wm` files): `lexer` → `parser` → `codegen`
  → `wasm`. `compile_to_wasm` gives the bytes of a module that imports
  `env.print(ptr, len)`, exports `main`, `__alloc(len)` (a bump allocator
  for hosts that hand strings back) and its memory; decimal literals become
  f64 arithmetic on their digits (those past the 19 or 20 that fit in a
  `u64` are cut off); its contract is
  `spec_compile`, the composition of the lexer, grammar and lowering specs
  with the binary encoding `wasm::module_bytes`.
- **vish** (a V-like language with `i32` values): `vish::lex`,
  `vish::parse`, `vish::wasmgen` (constant folding, inlining of small
  helpers, removal of unreachable functions, a peephole pass).
- **auto_host**: reading npm imports and declaration files, and the texts of
  `package.json` and of the Node host module for npm imports.
- **host_js**: the JavaScript that runs a compiled module under Node or in
  the browser.

The trusted wrappers are those around `wasm-encoder` (all in `wasm_api`)
and four around std: `String::push`, `String::push_str` (`lexer`),
`String::from_utf8` (`lexer`) and `char::is_alphanumeric` (`auto_host`);
every other function is verified. Properties that span several functions are stated as
proof functions in `parse_laws`, `compile_laws`, `vish::laws`, and at the
end of `lexer` and `auto_host`.

`app/` is the command-line front end (`wasmchi build|run|bundle`,
`wasmchi vish`): file and process I/O, argument handling and the error
types with `Display`.
