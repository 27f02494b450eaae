use wasmchi::codegen::CodegenError;
use wasmchi::lexer::{lex, TokenKind};
use wasmchi::parser::ParseError;
use wasmchi::{compile_to_wasm, parse, CompileError, Decimal, Expr, Item, Stmt, Type};
use wasmparser::Payload;

fn kinds(src: &str) -> Vec<TokenKind> {
    lex(src).into_iter().map(|t| t.kind).collect()
}

fn codegen_error(src: &str) -> CodegenError {
    match compile_to_wasm(src) {
        Err(CompileError::Codegen(e)) => e,
        other => panic!("expected a codegen error, got {:?}", other),
    }
}

fn run_main(wasm: &[u8]) -> i32 {
    let engine = wasmi::Engine::default();
    let module = wasmi::Module::new(&engine, wasm).unwrap();
    let mut store = wasmi::Store::new(&engine, ());
    let mut linker = wasmi::Linker::<()>::new(&engine);
    linker.func_wrap("env", "print", |_ptr: i32, _len: i32| {}).unwrap();
    let instance = linker.instantiate_and_start(&mut store, &module).unwrap();
    let main = instance.get_typed_func::<(), i32>(&store, "main").unwrap();
    main.call(&mut store, ()).unwrap()
}

#[test]
fn lexer_gives_newlines_and_literals() {
    assert_eq!(
        kinds("x := 12 // note\n\"a\\n\" 3.25 true"),
        vec![
            TokenKind::Ident("x".to_string()),
            TokenKind::ColonEqual,
            TokenKind::Int(12),
            TokenKind::Newline,
            TokenKind::Str("a\n".to_string()),
            TokenKind::Float(Decimal { mantissa: 325, scale: 2, exponent: 0 }),
            TokenKind::True,
            TokenKind::Eof,
        ]
    );
}

#[test]
fn lexer_keeps_utf8_string_literals() {
    let toks = lex("\"é\"");
    assert_eq!(toks.len(), 2);
    assert_eq!(toks[0].kind, TokenKind::Str("é".to_string()));
    assert_eq!(toks[0].pos, 0);
    assert_eq!(toks[1].kind, TokenKind::Eof);
    assert_eq!(toks[1].pos, 4);
    assert_eq!(kinds("\"a\\\"b\\tç\""), vec![TokenKind::Str("a\"b\tç".to_string()), TokenKind::Eof]);
}

#[test]
fn printed_literal_is_utf8_in_memory() {
    let src = "export fn main(): i32 {\n  print(\"héllo\")\n  return 0\n}\n";
    let wasm = compile_to_wasm(src).unwrap();
    let engine = wasmi::Engine::default();
    let module = wasmi::Module::new(&engine, &wasm[..]).unwrap();
    let mut store = wasmi::Store::new(&engine, Vec::<String>::new());
    let mut linker = wasmi::Linker::<Vec<String>>::new(&engine);
    linker
        .func_wrap("env", "print", |mut caller: wasmi::Caller<'_, Vec<String>>, ptr: i32, len: i32| {
            let mem = caller.get_export("memory").and_then(wasmi::Extern::into_memory).unwrap();
            let mut buf = vec![0u8; len as usize];
            mem.read(&caller, ptr as usize, &mut buf).unwrap();
            caller.data_mut().push(String::from_utf8(buf).unwrap());
        })
        .unwrap();
    let instance = linker.instantiate_and_start(&mut store, &module).unwrap();
    let main = instance.get_typed_func::<(), i32>(&store, "main").unwrap();
    assert_eq!(main.call(&mut store, ()).unwrap(), 0);
    assert_eq!(store.data().clone(), vec!["héllo".to_string()]);
}

#[test]
fn lexer_reads_two_char_operators() {
    assert_eq!(
        kinds("== != <= >= && || ! < > = :"),
        vec![
            TokenKind::EqEq,
            TokenKind::BangEq,
            TokenKind::LtEq,
            TokenKind::GtEq,
            TokenKind::AndAnd,
            TokenKind::OrOr,
            TokenKind::Bang,
            TokenKind::Lt,
            TokenKind::Gt,
            TokenKind::Equal,
            TokenKind::Colon,
            TokenKind::Eof,
        ]
    );
}

#[test]
fn lexer_records_byte_positions() {
    let toks = lex("let ab = 1");
    let pos: Vec<usize> = toks.iter().map(|t| t.pos).collect();
    assert_eq!(pos, vec![0, 4, 7, 9, 10]);
}

#[test]
fn short_declaration_parses_as_let() {
    let a = parse("export fn main(): i32 {\n  let x = 1 + 2\n  return x\n}\n").unwrap();
    let b = parse("export fn main(): i32 {\n  x := 1 + 2\n  return x\n}\n").unwrap();
    assert_eq!(a, b);
}

#[test]
fn ts_and_v_signatures_parse_the_same() {
    let ts = parse("fn add(a: i32, b: i32): i32 {\n  return a + b\n}\n").unwrap();
    let v = parse("fn add(a i32, b i32) i32 {\n  return a + b\n}\n").unwrap();
    assert_eq!(ts, v);
    let mixed = parse("fn add(a: i32, b i32) i32 {\n  return a + b\n}\n").unwrap();
    assert_eq!(ts, mixed);
}

#[test]
fn string_literal_sums_are_folded() {
    let p = parse("export fn main(): i32 {\n  print(\"a\" + \"b\" + \"c\")\n  return 0\n}\n").unwrap();
    match &p.items[0] {
        Item::ExportFn(f) => assert_eq!(f.body[0], Stmt::Print(Expr::Str("abc".to_string()))),
        other => panic!("unexpected item {:?}", other),
    }
}

#[test]
fn import_declaration_parses() {
    let p = parse("import fn now(): f64\n").unwrap();
    match &p.items[0] {
        Item::ImportFn(f) => {
            assert_eq!(f.name, "now");
            assert!(f.params.is_empty());
            assert_eq!(f.ret_ty, Type::F64);
        },
        other => panic!("unexpected item {:?}", other),
    }
}

#[test]
fn parse_error_reports_position_and_message() {
    assert_eq!(
        parse("export main"),
        Err(ParseError { pos: 7, message: "expected 'fn'".to_string() })
    );
    assert_eq!(
        parse("fn f() {}"),
        Err(ParseError { pos: 7, message: "expected type".to_string() })
    );
    assert!(matches!(compile_to_wasm("let"), Err(CompileError::Parse(_))));
}

#[test]
fn output_starts_with_wasm_header() {
    let wasm = compile_to_wasm("export fn main(): i32 {\n  return 7\n}\n").unwrap();
    assert_eq!(&wasm[0..8], &[0x00, 0x61, 0x73, 0x6d, 0x01, 0x00, 0x00, 0x00]);
    assert_eq!(run_main(&wasm), 7);
}

#[test]
fn module_imports_print_and_exports_main_and_memory() {
    let wasm = compile_to_wasm("import fn tick(): void\nexport fn main(): i32 {\n  return 0\n}\n").unwrap();
    wasmparser::validate(&wasm).unwrap();
    let mut imports = Vec::new();
    let mut exports = Vec::new();
    for payload in wasmparser::Parser::new(0).parse_all(&wasm) {
        match payload.unwrap() {
            Payload::ImportSection(reader) => {
                for imp in reader.into_imports() {
                    let imp = imp.unwrap();
                    imports.push(format!("{}.{}", imp.module, imp.name));
                }
            },
            Payload::ExportSection(reader) => {
                for e in reader {
                    exports.push(e.unwrap().name.to_string());
                }
            },
            _ => {},
        }
    }
    assert_eq!(imports, vec!["env.print", "env.tick"]);
    assert_eq!(exports, vec!["main", "__alloc", "memory"]);
}

#[test]
fn alloc_hands_out_heap_after_the_string_data() {
    // One 21-byte string at offset 0: the heap cell is at 24, the heap from 28.
    let src = "export fn main(): i32 {\n  print(\"hello, wasmchi world!\")\n  return 0\n}\n";
    let wasm = compile_to_wasm(src).unwrap();
    wasmparser::validate(&wasm).unwrap();
    let engine = wasmi::Engine::default();
    let module = wasmi::Module::new(&engine, &wasm[..]).unwrap();
    let mut store = wasmi::Store::new(&engine, ());
    let mut linker = wasmi::Linker::<()>::new(&engine);
    linker.func_wrap("env", "print", |_ptr: i32, _len: i32| {}).unwrap();
    let instance = linker.instantiate_and_start(&mut store, &module).unwrap();
    let alloc = instance.get_typed_func::<i32, i32>(&store, "__alloc").unwrap();
    let first = alloc.call(&mut store, 5).unwrap();
    let second = alloc.call(&mut store, 3).unwrap();
    let third = alloc.call(&mut store, 0).unwrap();
    assert_eq!(first, 28);
    assert_eq!(second, 33);
    assert_eq!(third, 36);
    let mem = instance.get_memory(&store, "memory").unwrap();
    let mut text = [0u8; 21];
    mem.read(&store, 0, &mut text).unwrap();
    assert_eq!(&text, b"hello, wasmchi world!");
}

#[test]
fn f64_functions_compute() {
    let src = "export fn half(x: f64): f64 {\n  return x / 2\n}\nexport fn main(): i32 {\n  return 0\n}\n";
    let wasm = compile_to_wasm(src).unwrap();
    wasmparser::validate(&wasm).unwrap();
    let engine = wasmi::Engine::default();
    let module = wasmi::Module::new(&engine, &wasm[..]).unwrap();
    let mut store = wasmi::Store::new(&engine, ());
    let mut linker = wasmi::Linker::<()>::new(&engine);
    linker.func_wrap("env", "print", |_ptr: i32, _len: i32| {}).unwrap();
    let instance = linker.instantiate_and_start(&mut store, &module).unwrap();
    let half = instance.get_typed_func::<f64, f64>(&store, "half").unwrap();
    assert_eq!(half.call(&mut store, 2.5).unwrap(), 1.25);
}

#[test]
fn float_literal_is_exact_decimal() {
    let src = "export fn pi(): f64 {\n  return 3.25\n}\nexport fn main(): i32 {\n  return 0\n}\n";
    let wasm = compile_to_wasm(src).unwrap();
    let engine = wasmi::Engine::default();
    let module = wasmi::Module::new(&engine, &wasm[..]).unwrap();
    let mut store = wasmi::Store::new(&engine, ());
    let mut linker = wasmi::Linker::<()>::new(&engine);
    linker.func_wrap("env", "print", |_ptr: i32, _len: i32| {}).unwrap();
    let instance = linker.instantiate_and_start(&mut store, &module).unwrap();
    let pi = instance.get_typed_func::<(), f64>(&store, "pi").unwrap();
    assert_eq!(pi.call(&mut store, ()).unwrap(), 3.25);
}

#[test]
fn integer_division_and_precedence() {
    let wasm = compile_to_wasm("export fn main(): i32 {\n  return 2 + 3 * 4 - 20 / 5\n}\n").unwrap();
    assert_eq!(run_main(&wasm), 10);
}

#[test]
fn codegen_error_missing_main() {
    assert!(matches!(codegen_error("fn f(): i32 {\n  return 1\n}\n"), CodegenError::MissingMain));
}

#[test]
fn codegen_error_main_with_params_is_unsupported() {
    assert!(matches!(
        codegen_error("export fn main(a: i32): i32 {\n  return a\n}\n"),
        CodegenError::UnsupportedType
    ));
}

#[test]
fn codegen_error_missing_return() {
    assert!(matches!(
        codegen_error("export fn main(): i32 {\n  let x = 1\n}\n"),
        CodegenError::MissingReturn
    ));
}

#[test]
fn codegen_error_unknown_variable() {
    match codegen_error("export fn main(): i32 {\n  return y\n}\n") {
        CodegenError::UnknownVariable(n) => assert_eq!(n, "y"),
        other => panic!("unexpected {:?}", other),
    }
}

#[test]
fn codegen_error_print_non_string() {
    assert!(matches!(
        codegen_error("export fn main(): i32 {\n  print(1)\n  return 0\n}\n"),
        CodegenError::PrintNonLiteral
    ));
}

#[test]
fn codegen_error_unknown_function() {
    match codegen_error("export fn main(): i32 {\n  return g()\n}\n") {
        CodegenError::UnknownFunction(n) => assert_eq!(n, "g"),
        other => panic!("unexpected {:?}", other),
    }
}

#[test]
fn codegen_error_arity_mismatch() {
    match codegen_error("fn f(a: i32): i32 {\n  return a\n}\nexport fn main(): i32 {\n  return f()\n}\n") {
        CodegenError::ArityMismatch(n) => assert_eq!(n, "f"),
        other => panic!("unexpected {:?}", other),
    }
}

#[test]
fn codegen_error_type_mismatch() {
    assert!(matches!(
        codegen_error("export fn main(): i32 {\n  return \"s\"\n}\n"),
        CodegenError::TypeMismatch
    ));
}

#[test]
fn host_scripts_instantiate_with_print() {
    let node = wasmchi::host_js::node_host_mjs();
    assert!(node.contains("WebAssembly.instantiate(wasmBytes, { env: { ...extra, print } })"));
    assert!(node.contains("instance.exports.main()"));
    let browser = wasmchi::host_js::browser_app_mjs();
    assert!(browser.contains("fetch('./out.wasm')"));
    assert!(browser.contains("{ env: { print } }"));
}

fn float_fn_value(literal: &str) -> f64 {
    let src = format!("export fn v(): f64 {{\n  return {}\n}}\nexport fn main(): i32 {{\n  return 0\n}}\n", literal);
    let wasm = compile_to_wasm(&src).unwrap();
    wasmparser::validate(&wasm).unwrap();
    let engine = wasmi::Engine::default();
    let module = wasmi::Module::new(&engine, &wasm[..]).unwrap();
    let mut store = wasmi::Store::new(&engine, ());
    let mut linker = wasmi::Linker::<()>::new(&engine);
    linker.func_wrap("env", "print", |_ptr: i32, _len: i32| {}).unwrap();
    let instance = linker.instantiate_and_start(&mut store, &module).unwrap();
    let v = instance.get_typed_func::<(), f64>(&store, "v").unwrap();
    v.call(&mut store, ()).unwrap()
}

#[test]
fn lexer_cuts_decimal_digits_beyond_u64() {
    assert_eq!(
        kinds("12345678901234567890123.5 0.12345678901234567890123"),
        vec![
            TokenKind::Float(Decimal { mantissa: 12345678901234567890, scale: 0, exponent: 3 }),
            TokenKind::Float(Decimal { mantissa: 12345678901234567890, scale: 20, exponent: 0 }),
            TokenKind::Eof,
        ]
    );
}

#[test]
fn long_decimal_literals_keep_their_value() {
    let big = float_fn_value("12345678901234567890123.5");
    assert!((big - 1.2345678901234567890123e22).abs() <= 1.2345678901234567e22 * 1e-15);
    let small = float_fn_value("0.12345678901234567890123");
    assert!((small - 0.12345678901234567890123).abs() <= 1e-16);
    let tiny = float_fn_value("0.0000000000000000000000015");
    assert!((tiny - 1.5e-24).abs() <= 1.5e-24 * 1e-15);
    assert_eq!(float_fn_value("0.5"), 0.5);
}

#[test]
fn statements_after_return_are_not_compiled() {
    let wasm = compile_to_wasm("export fn main(): i32 {\n  return 1\n  print(x)\n}\n").unwrap();
    wasmparser::validate(&wasm).unwrap();
    assert_eq!(run_main(&wasm), 1);
    let wasm = compile_to_wasm("export fn main(): i32 {\n  return 2\n  print(\"never\")\n  return 3\n}\n").unwrap();
    assert_eq!(run_main(&wasm), 2);
}
