use wasmi::{Engine, Linker, Module, Store};

#[test]
fn can_import_env_function_and_call_it_from_main() {
    let src = r#"
import fn forty_two(): i32

export fn main(): i32 {
  return forty_two()
}
"#;

    let wasm = wasmchi::compile_to_wasm(src).unwrap();
    wasmparser::validate(&wasm).unwrap();

    // The host provides `forty_two`, as `export default { forty_two: () => 42 }` would.
    let engine = Engine::default();
    let module = Module::new(&engine, &wasm).unwrap();
    let mut store = Store::new(&engine, ());
    let mut linker = Linker::<()>::new(&engine);
    linker.func_wrap("env", "print", |_p: i32, _l: i32| {}).unwrap();
    linker.func_wrap("env", "forty_two", || -> i32 { 42 }).unwrap();
    let instance = linker.instantiate_and_start(&mut store, &module).unwrap();
    let main = instance.get_typed_func::<(), i32>(&store, "main").unwrap();
    assert_eq!(main.call(&mut store, ()).unwrap(), 42);
}
