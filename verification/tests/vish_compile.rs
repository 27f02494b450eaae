use wasmchi::vish::lex::{lex, Tok};
use wasmchi::vish::parse::{parse, Expr, FnDecl, ParseError, Program, Stmt, TypeName};
use wasmchi::vish::wasmgen::{compile, GenError, Target};
use wasmparser::Payload;

fn build(src: &str, target: Target, export_start: bool) -> Result<Vec<u8>, GenError> {
    let prog = parse(src).expect("parses");
    compile(prog, target, export_start)
}

fn web(src: &str) -> Vec<u8> {
    let wasm = build(src, Target::Web, false).expect("compiles");
    wasmparser::validate(&wasm).expect("valid module");
    wasm
}

fn call_i32(wasm: &[u8], name: &str) -> i32 {
    let engine = wasmi::Engine::default();
    let module = wasmi::Module::new(&engine, wasm).unwrap();
    let mut store = wasmi::Store::new(&engine, ());
    let linker = wasmi::Linker::<()>::new(&engine);
    let instance = linker.instantiate_and_start(&mut store, &module).unwrap();
    let f = instance.get_typed_func::<(), i32>(&store, name).unwrap();
    f.call(&mut store, ()).unwrap()
}

fn exports(wasm: &[u8]) -> Vec<(String, wasmparser::ExternalKind)> {
    let mut out = Vec::new();
    for payload in wasmparser::Parser::new(0).parse_all(wasm) {
        if let Payload::ExportSection(reader) = payload.unwrap() {
            for e in reader {
                let e = e.unwrap();
                out.push((e.name.to_string(), e.kind));
            }
        }
    }
    out
}

fn function_count(wasm: &[u8]) -> u32 {
    for payload in wasmparser::Parser::new(0).parse_all(wasm) {
        if let Payload::FunctionSection(reader) = payload.unwrap() {
            return reader.count();
        }
    }
    0
}

fn first_body_ops(wasm: &[u8]) -> Vec<String> {
    for payload in wasmparser::Parser::new(0).parse_all(wasm) {
        if let Payload::CodeSectionEntry(body) = payload.unwrap() {
            let mut out = Vec::new();
            for op in body.get_operators_reader().unwrap() {
                out.push(format!("{:?}", op.unwrap()));
            }
            return out;
        }
    }
    Vec::new()
}

#[test]
fn vish_lexes_tokens_and_skips_comments() {
    let toks = lex("fn f() { x = 1 << 2; } // done\n");
    let kinds: Vec<&Tok> = toks.iter().map(|s| &s.tok).collect();
    assert_eq!(
        kinds,
        vec![
            &Tok::Fn,
            &Tok::Ident("f".to_string()),
            &Tok::LParen,
            &Tok::RParen,
            &Tok::LBrace,
            &Tok::Ident("x".to_string()),
            &Tok::Eq,
            &Tok::Num(1),
            &Tok::Shl,
            &Tok::Num(2),
            &Tok::Semi,
            &Tok::RBrace,
        ]
    );
    assert_eq!((toks[0].start, toks[0].end), (0, 2));
    assert_eq!((toks[7].start, toks[7].end), (13, 14));
}

#[test]
fn vish_lexes_unknown_char_as_error() {
    let toks = lex("a # b");
    assert_eq!(toks.len(), 3);
    assert_eq!(toks[1].tok, Tok::Error);
    assert_eq!((toks[1].start, toks[1].end), (2, 3));
}

#[test]
fn vish_number_too_large_is_an_error_token() {
    let toks: Vec<Tok> = lex("2147483648").into_iter().map(|s| s.tok).collect();
    assert_eq!(toks, vec![Tok::Error]);
    let toks: Vec<Tok> = lex("2147483647").into_iter().map(|s| s.tok).collect();
    assert_eq!(toks, vec![Tok::Num(2147483647)]);
    assert!(parse("const N: i32 = 2147483647;").is_ok());
    assert!(parse("const N: i32 = 2147483648;").is_err());
    assert!(parse("2147483648").is_err());
}

#[test]
fn vish_constants_fold_in_order() {
    let wasm = web("const A: i32 = 6;\nconst B: i32 = A * 7;\nexport fn main(): i32 { return B; }\n");
    assert_eq!(call_i32(&wasm, "main"), 42);
}

#[test]
fn vish_constant_arithmetic_wraps() {
    let wasm = web("const A: i32 = 2147483647 + 1;\nexport fn main(): i32 { return A; }\n");
    assert_eq!(call_i32(&wasm, "main"), i32::MIN);
}

#[test]
fn vish_inline_helper_is_expanded_and_not_emitted() {
    let src = "@inline fn sq(x: i32): i32 { return x * x; }\nexport fn main(): i32 { return sq(7) + 1; }\n";
    let wasm = web(src);
    assert_eq!(call_i32(&wasm, "main"), 50);
    assert_eq!(function_count(&wasm), 1);
}

#[test]
fn vish_nested_helper_calls_expand() {
    let src = "@inline fn sq(x: i32): i32 { return x * x; }\nexport fn main(): i32 { return sq(sq(2)); }\n";
    assert_eq!(call_i32(&web(src), "main"), 16);
}

#[test]
fn vish_helpers_calling_helpers_expand() {
    let src = "fn inc(x: i32): i32 { return x + 1; }\nfn twice(x: i32): i32 { return inc(inc(x)); }\nexport fn main(): i32 { return twice(twice(1)); }\n";
    let wasm = web(src);
    assert_eq!(call_i32(&wasm, "main"), 5);
    assert_eq!(function_count(&wasm), 1);
}

#[test]
fn vish_helper_body_sees_caller_locals() {
    let src = "fn addn(x: i32): i32 { return x + n; }\nexport fn main(): i32 { let n: i32 = 5; return addn(1); }\n";
    assert_eq!(call_i32(&web(src), "main"), 6);
}

#[test]
fn vish_unused_helper_argument_is_not_emitted() {
    let src = "fn first(a: i32, b: i32): i32 { return a; }\nexport fn main(): i32 { return first(7, nope); }\n";
    assert_eq!(call_i32(&web(src), "main"), 7);
}

#[test]
fn vish_void_helper_is_expanded_in_statements() {
    let src = "fn put(v: i32) { store_i32(64, v); }\nexport fn main(): i32 { put(9); return load_i32(64); }\n";
    let wasm = web(src);
    assert_eq!(call_i32(&wasm, "main"), 9);
    assert_eq!(function_count(&wasm), 1);
}

#[test]
fn vish_unreachable_functions_are_dropped() {
    let src = "fn unused(): i32 { let a: i32 = 1; return a; }\nfn used(): i32 { let b: i32 = 2; return b; }\nexport fn main(): i32 { return used(); }\n";
    let wasm = web(src);
    assert_eq!(call_i32(&wasm, "main"), 2);
    assert_eq!(function_count(&wasm), 2);
}

#[test]
fn vish_while_loop_sums() {
    let src = "export fn main(): i32 {\n let i: i32 = 0;\n let s: i32 = 0;\n while i < 10 { i = i + 1; s = s + i; }\n return s;\n}\n";
    assert_eq!(call_i32(&web(src), "main"), 55);
}

#[test]
fn vish_if_else_picks_branch() {
    let src = "export fn main(): i32 {\n let x: i32 = 3;\n if x == 3 { x = 10; } else { x = 20; }\n return x;\n}\n";
    assert_eq!(call_i32(&web(src), "main"), 10);
}

#[test]
fn vish_bit_operators() {
    let src = "export fn main(): i32 { return ((5 & 3) | 8) ^ (1 << 4) >> 1; }\n";
    assert_eq!(call_i32(&web(src), "main"), ((5 & 3) | 8) ^ ((1 << 4) >> 1));
}

#[test]
fn vish_memory_is_exported_first() {
    let wasm = web("export fn main(): i32 { return 0; }\n");
    let ex = exports(&wasm);
    assert_eq!(ex[0], ("memory".to_string(), wasmparser::ExternalKind::Memory));
    assert_eq!(ex[1], ("main".to_string(), wasmparser::ExternalKind::Func));
    assert_eq!(&wasm[0..8], &[0x00, 0x61, 0x73, 0x6d, 0x01, 0x00, 0x00, 0x00]);
}

#[test]
fn vish_web_exports_main_when_nothing_is_exported() {
    let wasm = web("fn main(): i32 { let r: i32 = 3; return r; }\n");
    let ex = exports(&wasm);
    assert_eq!(ex.len(), 2);
    assert_eq!(ex[1].0, "main");
    assert_eq!(call_i32(&wasm, "main"), 3);
}

#[test]
fn vish_single_return_main_is_the_entry_point() {
    let wasm = web("fn main(): i32 { return 3; }\n");
    let ex = exports(&wasm);
    assert_eq!(ex.len(), 2);
    assert_eq!(ex[1], ("main".to_string(), wasmparser::ExternalKind::Func));
    assert_eq!(call_i32(&wasm, "main"), 3);
}

#[test]
fn vish_entry_point_built_directly() {
    let prog = Program {
        consts: vec![],
        fns: vec![FnDecl {
            exported: false,
            inline: false,
            name: "main".into(),
            params: vec![],
            ret: TypeName::I32,
            body: vec![Stmt::Return(Some(Expr::Num(42)))],
        }],
    };
    let wasm = compile(prog, Target::Web, false).expect("compiles");
    wasmparser::validate(&wasm).unwrap();
    let names: Vec<String> = exports(&wasm).into_iter().map(|e| e.0).collect();
    assert_eq!(names, vec!["memory", "main"]);
    assert_eq!(call_i32(&wasm, "main"), 42);
}

#[test]
fn vish_void_start_is_not_a_helper() {
    let wasm = build("fn _start() { store_i32(8, 5); }\n", Target::Wasi, false).unwrap();
    wasmparser::validate(&wasm).unwrap();
    let names: Vec<String> = exports(&wasm).into_iter().map(|e| e.0).collect();
    assert_eq!(names, vec!["memory", "_start"]);
}

#[test]
fn vish_wasi_exports_start_when_nothing_is_exported() {
    let wasm = build("fn helper(): i32 { return 1; }\n", Target::Wasi, false).unwrap();
    wasmparser::validate(&wasm).unwrap();
    let ex = exports(&wasm);
    assert_eq!(ex.len(), 2);
    assert_eq!(ex[1], ("_start".to_string(), wasmparser::ExternalKind::Func));
    let engine = wasmi::Engine::default();
    let module = wasmi::Module::new(&engine, &wasm[..]).unwrap();
    let mut store = wasmi::Store::new(&engine, ());
    let linker = wasmi::Linker::<()>::new(&engine);
    let instance = linker.instantiate_and_start(&mut store, &module).unwrap();
    let start = instance.get_typed_func::<(), ()>(&store, "_start").unwrap();
    start.call(&mut store, ()).unwrap();
    let mem = instance.get_memory(&store, "memory").unwrap();
    let mut word = [0u8; 4];
    mem.read(&store, 0, &mut word).unwrap();
    assert_eq!(i32::from_le_bytes(word), 1024);
}

#[test]
fn vish_export_start_adds_start_export() {
    let wasm = build("export fn main(): i32 { return 0; }\n", Target::Web, true).unwrap();
    let names: Vec<String> = exports(&wasm).into_iter().map(|e| e.0).collect();
    assert_eq!(names, vec!["memory", "main", "_start"]);
}

#[test]
fn vish_peephole_removes_identities() {
    let wasm = web("export fn f(x: i32): i32 { return x * 1 + 0; }\n");
    assert_eq!(first_body_ops(&wasm), vec!["LocalGet { local_index: 0 }", "Return", "End"]);
}

#[test]
fn vish_peephole_turns_set_get_into_tee() {
    let wasm = web("export fn f(): i32 { let a: i32 = 5; return a; }\n");
    assert_eq!(
        first_body_ops(&wasm),
        vec!["I32Const { value: 5 }", "LocalTee { local_index: 0 }", "Return", "End"]
    );
    let ops = first_body_ops(&web("export fn g(x: i32): i32 { return x == 0; }\n"));
    assert!(ops.iter().any(|o| o.as_str() == "I32Eqz"));
}

#[test]
fn vish_error_const_not_foldable() {
    let r = build("const A: i32 = f();\nexport fn main(): i32 { return A; }\n", Target::Web, false);
    assert!(matches!(r, Err(GenError::ConstNotFoldable(ref n)) if n == "A"));
}

#[test]
fn vish_error_inline_exported() {
    let r = build("export @inline fn f(): i32 { return 1; }\n", Target::Web, false);
    assert!(matches!(r, Err(GenError::InlineExported(ref n)) if n == "f"));
}

#[test]
fn vish_error_not_inlineable() {
    let r = build(
        "@inline fn f(): i32 { let a: i32 = 1; return a; }\nexport fn main(): i32 { return f(); }\n",
        Target::Web,
        false,
    );
    assert!(matches!(r, Err(GenError::NotInlineable(ref n)) if n == "f"));
}

#[test]
fn vish_error_missing_main() {
    let r = build("fn helper(): i32 { let a: i32 = 1; return a; }\n", Target::Web, false);
    assert!(matches!(r, Err(GenError::MissingMain)));
}

#[test]
fn vish_error_undefined_var() {
    let r = build("export fn main(): i32 { return y; }\n", Target::Web, false);
    assert!(matches!(r, Err(GenError::UndefinedVar(ref n)) if n == "y"));
}

#[test]
fn vish_error_assign_to_undeclared() {
    let r = build("export fn main(): i32 { z = 1; return 0; }\n", Target::Web, false);
    assert!(matches!(r, Err(GenError::UndefAssign(ref n)) if n == "z"));
}

#[test]
fn vish_error_helper_arity() {
    let r = build(
        "fn one(a: i32): i32 { return a; }\nexport fn main(): i32 { return one(1, 2); }\n",
        Target::Web,
        false,
    );
    assert!(matches!(r, Err(GenError::ArityMismatch(ref n)) if n == "one"));
}

#[test]
fn vish_error_builtin_arity() {
    let r = build("export fn main(): i32 { return load_i32(); }\n", Target::Web, false);
    assert!(matches!(r, Err(GenError::BuiltinArity(ref n)) if n == "load_i32"));
}

#[test]
fn vish_error_unknown_fn() {
    let r = build("export fn main(): i32 { return nope(); }\n", Target::Web, false);
    assert!(matches!(r, Err(GenError::UnknownFn(ref n)) if n == "nope"));
}

#[test]
fn vish_error_inline_too_deep() {
    let r = build(
        "fn a(): i32 { return b(); }\nfn b(): i32 { return a(); }\nexport fn main(): i32 { return a(); }\n",
        Target::Web,
        false,
    );
    assert!(matches!(r, Err(GenError::InlineTooDeep(_))));
}

#[test]
fn vish_parse_errors() {
    assert!(matches!(parse("let"), Err(ParseError::UnexpectedTopLevel(Tok::Let))));
    assert!(matches!(parse("@foo fn f() {}"), Err(ParseError::UnknownAttribute(ref a)) if a == "foo"));
    assert!(matches!(parse("fn f(): i64 {}"), Err(ParseError::UnknownType(ref t)) if t == "i64"));
    assert!(matches!(parse("fn"), Err(ParseError::ExpectedIdent(None))));
    assert!(matches!(parse("fn f() { return ; }"), Ok(_)));
    assert!(matches!(parse("fn f() { return 1 }"), Err(ParseError::Expected(Tok::Semi))));
    assert!(matches!(parse("fn f() { return ); }"), Err(ParseError::UnexpectedPrimary(Some(Tok::RParen)))));
    assert!(matches!(parse("# fn"), Err(ParseError::LexError)));
}
