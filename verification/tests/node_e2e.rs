use wasmi::{Caller, Engine, Extern, Linker, Module, Store};

/// Runs `main` with an `env.print` that collects the printed lines; returns
/// the lines and the value of `main`.
fn run_with_print(wasm: &[u8]) -> (Vec<String>, i32) {
    let engine = Engine::default();
    let module = Module::new(&engine, wasm).unwrap();
    let mut store = Store::new(&engine, Vec::<String>::new());
    let mut linker = Linker::<Vec<String>>::new(&engine);
    linker
        .func_wrap("env", "print", |mut caller: Caller<'_, Vec<String>>, ptr: i32, len: i32| {
            let mem = caller.get_export("memory").and_then(Extern::into_memory).unwrap();
            let mut buf = vec![0u8; len as usize];
            mem.read(&caller, ptr as usize, &mut buf).unwrap();
            let s = String::from_utf8(buf).unwrap();
            caller.data_mut().push(s);
        })
        .unwrap();
    let instance = linker.instantiate_and_start(&mut store, &module).unwrap();
    let main = instance.get_typed_func::<(), i32>(&store, "main").unwrap();
    let ret = main.call(&mut store, ()).unwrap();
    (store.data().clone(), ret)
}

#[test]
fn node_e2e_runs_main_and_prints_return_value() {
    let src = "export fn main(): i32 {\n  print(\"h\" + \"i\")\n  let x = 40\n  return x + 2\n}\n";
    let wasm = wasmchi::compile_to_wasm(src).unwrap();
    let (lines, ret) = run_with_print(&wasm);
    assert_eq!(lines.get(0).map(|s| s.as_str()), Some("hi"));
    assert_eq!(ret, 42);
}
