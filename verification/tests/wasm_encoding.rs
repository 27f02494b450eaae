use wasmchi::wasm::{
    encode_module, sleb_len, uleb_len, Body, DataSeg, Export, ExportKind, FuncType, Import, Instr,
    ModuleIr, ValKind,
};

fn small_module(value: i32) -> ModuleIr {
    ModuleIr {
        types: vec![
            FuncType { params: vec![], results: vec![ValKind::I32] },
            FuncType { params: vec![ValKind::I32, ValKind::I32], results: vec![] },
        ],
        imports: vec![Import { module: "env".to_string(), name: "print".to_string(), ty: 1 }],
        funcs: vec![0],
        memory_pages: 1,
        exports: vec![
            Export { name: "f".to_string(), kind: ExportKind::Func, index: 1 },
            Export { name: "memory".to_string(), kind: ExportKind::Memory, index: 0 },
        ],
        bodies: vec![Body {
            locals: vec![(1, ValKind::I32)],
            code: vec![
                Instr::I32Const(value),
                Instr::LocalTee(0),
                Instr::I32Const(0),
                Instr::I32Load,
                Instr::I32Add,
                Instr::End,
            ],
        }],
        data: vec![DataSeg { offset: 0, bytes: vec![2, 0, 0, 0] }],
    }
}

#[test]
fn leb128_lengths() {
    assert_eq!(uleb_len(0), 1);
    assert_eq!(uleb_len(127), 1);
    assert_eq!(uleb_len(128), 2);
    assert_eq!(uleb_len(16_383), 2);
    assert_eq!(uleb_len(16_384), 3);
    assert_eq!(uleb_len(u64::MAX), 10);
    assert_eq!(sleb_len(0), 1);
    assert_eq!(sleb_len(63), 1);
    assert_eq!(sleb_len(64), 2);
    assert_eq!(sleb_len(-64), 1);
    assert_eq!(sleb_len(-65), 2);
    assert_eq!(sleb_len(i32::MAX), 5);
    assert_eq!(sleb_len(i32::MIN), 5);
}

#[test]
fn encoded_module_is_valid_and_runs() {
    let bytes = encode_module(&small_module(40)).expect("fits");
    assert_eq!(&bytes[0..8], &[0x00, 0x61, 0x73, 0x6d, 0x01, 0x00, 0x00, 0x00]);
    wasmparser::validate(&bytes).unwrap();
    let engine = wasmi::Engine::default();
    let module = wasmi::Module::new(&engine, &bytes[..]).unwrap();
    let mut store = wasmi::Store::new(&engine, ());
    let mut linker = wasmi::Linker::<()>::new(&engine);
    linker.func_wrap("env", "print", |_p: i32, _l: i32| {}).unwrap();
    let instance = linker.instantiate_and_start(&mut store, &module).unwrap();
    let f = instance.get_typed_func::<(), i32>(&store, "f").unwrap();
    assert_eq!(f.call(&mut store, ()).unwrap(), 42);
}

#[test]
fn encoded_constant_uses_signed_leb() {
    let bytes = encode_module(&small_module(-1_000_000)).expect("fits");
    wasmparser::validate(&bytes).unwrap();
    let engine = wasmi::Engine::default();
    let module = wasmi::Module::new(&engine, &bytes[..]).unwrap();
    let mut store = wasmi::Store::new(&engine, ());
    let mut linker = wasmi::Linker::<()>::new(&engine);
    linker.func_wrap("env", "print", |_p: i32, _l: i32| {}).unwrap();
    let instance = linker.instantiate_and_start(&mut store, &module).unwrap();
    let f = instance.get_typed_func::<(), i32>(&store, "f").unwrap();
    assert_eq!(f.call(&mut store, ()).unwrap(), -999_998);
}

#[test]
fn module_without_imports_or_data_has_no_such_sections() {
    let m = ModuleIr {
        types: vec![FuncType { params: vec![], results: vec![] }],
        imports: vec![],
        funcs: vec![0],
        memory_pages: 2,
        exports: vec![],
        bodies: vec![Body { locals: vec![], code: vec![Instr::End] }],
        data: vec![],
    };
    let bytes = encode_module(&m).expect("fits");
    wasmparser::validate(&bytes).unwrap();
    let ids: Vec<u8> = {
        let mut out = Vec::new();
        let mut i = 8;
        while i < bytes.len() {
            out.push(bytes[i]);
            let size = bytes[i + 1] as usize;
            i += 2 + size;
        }
        out
    };
    assert_eq!(ids, vec![1, 3, 5, 7, 10]);
}
