use wasmi::{Caller, Engine, Extern, Linker, Module, Store};

#[test]
fn can_import_env_log_string_literal() {
    let src = r#"
import fn js_log(msg: string): void

export fn main(): i32 {
  js_log("hello")
  return 0
}
"#;

    let wasm = wasmchi::compile_to_wasm(src).unwrap();
    wasmparser::validate(&wasm).unwrap();

    // The host's `js_log` reads the string from memory, as the node host does.
    let engine = Engine::default();
    let module = Module::new(&engine, &wasm).unwrap();
    let mut store = Store::new(&engine, Vec::<String>::new());
    let mut linker = Linker::<Vec<String>>::new(&engine);
    linker.func_wrap("env", "print", |_p: i32, _l: i32| {}).unwrap();
    linker
        .func_wrap("env", "js_log", |mut caller: Caller<'_, Vec<String>>, ptr: i32, len: i32| {
            let mem = caller.get_export("memory").and_then(Extern::into_memory).unwrap();
            let mut buf = vec![0u8; len as usize];
            mem.read(&caller, ptr as usize, &mut buf).unwrap();
            caller.data_mut().push(String::from_utf8(buf).unwrap());
        })
        .unwrap();
    let instance = linker.instantiate_and_start(&mut store, &module).unwrap();
    let main = instance.get_typed_func::<(), i32>(&store, "main").unwrap();
    assert_eq!(main.call(&mut store, ()).unwrap(), 0);
    assert_eq!(store.data().clone(), vec!["hello".to_string()]);
}
