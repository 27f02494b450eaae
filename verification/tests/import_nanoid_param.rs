use wasmi::{Caller, Engine, Extern, Linker, Module, Store};

#[test]
fn auto_host_infers_optional_number_param_and_string_return() {
    let src = r#"
import fn nanoid(size: f64): string

export fn main(): i32 {
  print(nanoid(10))
  return 0
}
"#;

    let wasm = wasmchi::compile_to_wasm(src).unwrap();
    wasmparser::validate(&wasm).unwrap();

    // The host's `nanoid(size)` returns `'x'.repeat(size)`.
    let engine = Engine::default();
    let module = Module::new(&engine, &wasm).unwrap();
    let mut store = Store::new(&engine, Vec::<String>::new());
    let mut linker = Linker::<Vec<String>>::new(&engine);
    linker
        .func_wrap("env", "print", |mut caller: Caller<'_, Vec<String>>, ptr: i32, len: i32| {
            let mem = caller.get_export("memory").and_then(Extern::into_memory).unwrap();
            let mut buf = vec![0u8; len as usize];
            mem.read(&caller, ptr as usize, &mut buf).unwrap();
            caller.data_mut().push(String::from_utf8(buf).unwrap());
        })
        .unwrap();
    linker
        .func_wrap("env", "nanoid", |mut caller: Caller<'_, Vec<String>>, size: f64| -> (i32, i32) {
            let text = "x".repeat(size as usize);
            let mem = caller.get_export("memory").and_then(Extern::into_memory).unwrap();
            mem.write(&mut caller, 1024, text.as_bytes()).unwrap();
            (1024, text.len() as i32)
        })
        .unwrap();
    let instance = linker.instantiate_and_start(&mut store, &module).unwrap();
    let main = instance.get_typed_func::<(), i32>(&store, "main").unwrap();
    assert_eq!(main.call(&mut store, ()).unwrap(), 0);
    let lines = store.data().clone();
    assert_eq!(lines.len(), 1);
    assert_eq!(lines[0].len(), 10);
    assert!(lines[0].chars().all(|c| c == 'x'));
}
