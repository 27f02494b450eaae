use wasmchi::compile_to_wasm;

// ── if/else ─────────────────────────────────────────────────────────────────

#[test]
fn if_else_selects_correct_branch() {
    let src = r#"
export fn main(): i32 {
  let x = 0
  if 1 == 1 {
    x := 10
  } else {
    x := 20
  }
  return x
}
"#;
    let wasm = compile_to_wasm(src).unwrap();
    wasmparser::validate(&wasm).unwrap();
    let result = run_wasm_main(&wasm);
    assert_eq!(result, 10);
}

#[test]
fn if_without_else_executes_body() {
    let src = r#"
export fn main(): i32 {
  let x = 5
  if x == 5 {
    x := 42
  }
  return x
}
"#;
    let wasm = compile_to_wasm(src).unwrap();
    wasmparser::validate(&wasm).unwrap();
    let result = run_wasm_main(&wasm);
    assert_eq!(result, 42);
}

// ── while ────────────────────────────────────────────────────────────────────

#[test]
fn while_loop_counts_to_ten() {
    let src = r#"
export fn main(): i32 {
  let i = 0
  let sum = 0
  while i < 10 {
    i := i + 1
    sum := sum + i
  }
  return sum
}
"#;
    let wasm = compile_to_wasm(src).unwrap();
    wasmparser::validate(&wasm).unwrap();
    let result = run_wasm_main(&wasm);
    // sum of 1..=10 = 55
    assert_eq!(result, 55);
}

// ── comparison operators ─────────────────────────────────────────────────────

#[test]
fn comparison_operators_produce_correct_i32() {
    let src = r#"
export fn eq_test(): i32 { return 3 == 3 }
export fn ne_test(): i32 { return 3 != 4 }
export fn lt_test(): i32 { return 2 < 5 }
export fn le_test(): i32 { return 5 <= 5 }
export fn gt_test(): i32 { return 7 > 3 }
export fn ge_test(): i32 { return 4 >= 4 }
export fn main(): i32 { return 0 }
"#;
    let wasm = compile_to_wasm(src).unwrap();
    wasmparser::validate(&wasm).unwrap();
}

// ── bool type ────────────────────────────────────────────────────────────────

#[test]
fn bool_literals_parse_and_compile() {
    let src = r#"
export fn main(): i32 {
  let t = true
  let f = false
  if t {
    return 1
  }
  return 0
}
"#;
    let wasm = compile_to_wasm(src).unwrap();
    wasmparser::validate(&wasm).unwrap();
    let result = run_wasm_main(&wasm);
    assert_eq!(result, 1);
}

// ── f64 literals and operations ──────────────────────────────────────────────

#[test]
fn f64_return_type_compiles() {
    let src = r#"
export fn pi(): f64 {
  return 3.14
}
export fn main(): i32 {
  return 0
}
"#;
    let wasm = compile_to_wasm(src).unwrap();
    wasmparser::validate(&wasm).unwrap();
}

#[test]
fn f64_arithmetic_compiles() {
    let src = r#"
export fn add_f64(a: f64, b: f64): f64 {
  return a + b
}
export fn main(): i32 {
  return 0
}
"#;
    let wasm = compile_to_wasm(src).unwrap();
    wasmparser::validate(&wasm).unwrap();
}

// ── void return type ─────────────────────────────────────────────────────────

#[test]
fn void_user_fn_compiles() {
    let src = r#"
fn noop(): void {
}
export fn main(): i32 {
  noop()
  return 0
}
"#;
    let wasm = compile_to_wasm(src).unwrap();
    wasmparser::validate(&wasm).unwrap();
}

// ── helper ───────────────────────────────────────────────────────────────────

// Runs `main` of a module with wasmi; `env.print` is a no-op.
fn run_wasm_main(wasm: &[u8]) -> i32 {
    let engine = wasmi::Engine::default();
    let module = wasmi::Module::new(&engine, wasm).unwrap();
    let mut store = wasmi::Store::new(&engine, ());
    let mut linker = wasmi::Linker::<()>::new(&engine);
    linker.func_wrap("env", "print", |_ptr: i32, _len: i32| {}).unwrap();
    let instance = linker.instantiate_and_start(&mut store, &module).unwrap();
    let main = instance.get_typed_func::<(), i32>(&store, "main").unwrap();
    main.call(&mut store, ()).unwrap()
}
