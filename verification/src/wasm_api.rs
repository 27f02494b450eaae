//! Contracts of the `wasm_encoder` calls that `wasm::encode_module` makes.
//!
//! Each section encoder is an opaque value; what it has collected is named
//! by `*_bytes` (the entries, one after the other) and `*_count` (the number
//! of entries). The contracts state the bytes each call appends, as the
//! crate's encoders write them.
use vstd::prelude::*;
use wasm_encoder::{
    BlockType, CodeSection, ConstExpr, DataSection, EntityType, ExportSection, Function,
    FunctionSection, ImportSection, InstructionSink, MemArg, MemArgTarget, MemorySection,
    MemoryType, Module, TypeSection, ValType,
};
use crate::wasm::{
    ExportKind, ExportV, ImportV, Instr, ValKind, data_entry, export_entry, func_entry, header,
    import_entry, instr_bytes, locals_bytes, memory_entry, section, sleb, type_entry, uleb,
};
use vstd::string::StringSliceAdditionalSpecFns;

verus! {

#[verifier::external_type_specification]
#[verifier::external_body]
pub struct ExModule(Module);

#[verifier::external_type_specification]
#[verifier::external_body]
pub struct ExTypeSection(TypeSection);

#[verifier::external_type_specification]
#[verifier::external_body]
pub struct ExImportSection(ImportSection);

#[verifier::external_type_specification]
#[verifier::external_body]
pub struct ExFunctionSection(FunctionSection);

#[verifier::external_type_specification]
#[verifier::external_body]
pub struct ExMemorySection(MemorySection);

#[verifier::external_type_specification]
#[verifier::external_body]
pub struct ExExportSection(ExportSection);

#[verifier::external_type_specification]
#[verifier::external_body]
pub struct ExCodeSection(CodeSection);

#[verifier::external_type_specification]
#[verifier::external_body]
pub struct ExDataSection(DataSection);

/// The bytes a `Module` holds so far.
pub uninterp spec fn module_content(m: Module) -> Seq<u8>;

/// The entries a `TypeSection` holds, one after the other.
pub uninterp spec fn type_section_bytes(s: TypeSection) -> Seq<u8>;

/// The number of entries a `TypeSection` holds.
pub uninterp spec fn type_section_count(s: TypeSection) -> nat;

/// The entries a `ImportSection` holds, one after the other.
pub uninterp spec fn import_section_bytes(s: ImportSection) -> Seq<u8>;

/// The number of entries a `ImportSection` holds.
pub uninterp spec fn import_section_count(s: ImportSection) -> nat;

/// The entries a `FunctionSection` holds, one after the other.
pub uninterp spec fn function_section_bytes(s: FunctionSection) -> Seq<u8>;

/// The number of entries a `FunctionSection` holds.
pub uninterp spec fn function_section_count(s: FunctionSection) -> nat;

/// The entries a `MemorySection` holds, one after the other.
pub uninterp spec fn memory_section_bytes(s: MemorySection) -> Seq<u8>;

/// The number of entries a `MemorySection` holds.
pub uninterp spec fn memory_section_count(s: MemorySection) -> nat;

/// The entries a `ExportSection` holds, one after the other.
pub uninterp spec fn export_section_bytes(s: ExportSection) -> Seq<u8>;

/// The number of entries a `ExportSection` holds.
pub uninterp spec fn export_section_count(s: ExportSection) -> nat;

/// The entries a `CodeSection` holds, one after the other.
pub uninterp spec fn code_section_bytes(s: CodeSection) -> Seq<u8>;

/// The number of entries a `CodeSection` holds.
pub uninterp spec fn code_section_count(s: CodeSection) -> nat;

/// The entries a `DataSection` holds, one after the other.
pub uninterp spec fn data_section_bytes(s: DataSection) -> Seq<u8>;

/// The number of entries a `DataSection` holds.
pub uninterp spec fn data_section_count(s: DataSection) -> nat;

/// `Module::new`: a module holding the 8-byte header (magic and version 1).
#[verifier::external_body]
pub(crate) fn module_new() -> (m: Module)
    ensures
        module_content(m) == header(),
{
    Module::new()
}

/// `Module::finish`: the bytes the module holds.
#[verifier::external_body]
pub(crate) fn module_finish(m: Module) -> (r: Vec<u8>)
    ensures
        r@ == module_content(m),
{
    m.finish()
}

/// `Module::section` with a `TypeSection`: appends the section id 1, the
/// section size, the number of entries and the entries. The size is
/// encoded from a `usize`, which must not exceed `u32::MAX`.
#[verifier::external_body]
pub(crate) fn module_add_type_section(m: &mut Module, s: &TypeSection)
    requires
        type_section_bytes(*s).len() + 5 <= u32::MAX,
    ensures
        module_content(*final(m)) == module_content(*old(m)) + section(
            1,
            type_section_count(*s),
            type_section_bytes(*s),
        ),
{
    m.section(s);
}

/// `TypeSection::new`: no entries.
#[verifier::external_body]
pub(crate) fn type_section_new() -> (s: TypeSection)
    ensures
        type_section_bytes(s) == Seq::<u8>::empty(),
        type_section_count(s) == 0,
{
    TypeSection::new()
}

/// `Module::section` with a `ImportSection`: appends the section id 2, the
/// section size, the number of entries and the entries. The size is
/// encoded from a `usize`, which must not exceed `u32::MAX`.
#[verifier::external_body]
pub(crate) fn module_add_import_section(m: &mut Module, s: &ImportSection)
    requires
        import_section_bytes(*s).len() + 5 <= u32::MAX,
    ensures
        module_content(*final(m)) == module_content(*old(m)) + section(
            2,
            import_section_count(*s),
            import_section_bytes(*s),
        ),
{
    m.section(s);
}

/// `ImportSection::new`: no entries.
#[verifier::external_body]
pub(crate) fn import_section_new() -> (s: ImportSection)
    ensures
        import_section_bytes(s) == Seq::<u8>::empty(),
        import_section_count(s) == 0,
{
    ImportSection::new()
}

/// `Module::section` with a `FunctionSection`: appends the section id 3, the
/// section size, the number of entries and the entries. The size is
/// encoded from a `usize`, which must not exceed `u32::MAX`.
#[verifier::external_body]
pub(crate) fn module_add_function_section(m: &mut Module, s: &FunctionSection)
    requires
        function_section_bytes(*s).len() + 5 <= u32::MAX,
    ensures
        module_content(*final(m)) == module_content(*old(m)) + section(
            3,
            function_section_count(*s),
            function_section_bytes(*s),
        ),
{
    m.section(s);
}

/// `FunctionSection::new`: no entries.
#[verifier::external_body]
pub(crate) fn function_section_new() -> (s: FunctionSection)
    ensures
        function_section_bytes(s) == Seq::<u8>::empty(),
        function_section_count(s) == 0,
{
    FunctionSection::new()
}

/// `Module::section` with a `MemorySection`: appends the section id 5, the
/// section size, the number of entries and the entries. The size is
/// encoded from a `usize`, which must not exceed `u32::MAX`.
#[verifier::external_body]
pub(crate) fn module_add_memory_section(m: &mut Module, s: &MemorySection)
    requires
        memory_section_bytes(*s).len() + 5 <= u32::MAX,
    ensures
        module_content(*final(m)) == module_content(*old(m)) + section(
            5,
            memory_section_count(*s),
            memory_section_bytes(*s),
        ),
{
    m.section(s);
}

/// `MemorySection::new`: no entries.
#[verifier::external_body]
pub(crate) fn memory_section_new() -> (s: MemorySection)
    ensures
        memory_section_bytes(s) == Seq::<u8>::empty(),
        memory_section_count(s) == 0,
{
    MemorySection::new()
}

/// `Module::section` with a `ExportSection`: appends the section id 7, the
/// section size, the number of entries and the entries. The size is
/// encoded from a `usize`, which must not exceed `u32::MAX`.
#[verifier::external_body]
pub(crate) fn module_add_export_section(m: &mut Module, s: &ExportSection)
    requires
        export_section_bytes(*s).len() + 5 <= u32::MAX,
    ensures
        module_content(*final(m)) == module_content(*old(m)) + section(
            7,
            export_section_count(*s),
            export_section_bytes(*s),
        ),
{
    m.section(s);
}

/// `ExportSection::new`: no entries.
#[verifier::external_body]
pub(crate) fn export_section_new() -> (s: ExportSection)
    ensures
        export_section_bytes(s) == Seq::<u8>::empty(),
        export_section_count(s) == 0,
{
    ExportSection::new()
}

/// `Module::section` with a `CodeSection`: appends the section id 10, the
/// section size, the number of entries and the entries. The size is
/// encoded from a `usize`, which must not exceed `u32::MAX`.
#[verifier::external_body]
pub(crate) fn module_add_code_section(m: &mut Module, s: &CodeSection)
    requires
        code_section_bytes(*s).len() + 5 <= u32::MAX,
    ensures
        module_content(*final(m)) == module_content(*old(m)) + section(
            10,
            code_section_count(*s),
            code_section_bytes(*s),
        ),
{
    m.section(s);
}

/// `CodeSection::new`: no entries.
#[verifier::external_body]
pub(crate) fn code_section_new() -> (s: CodeSection)
    ensures
        code_section_bytes(s) == Seq::<u8>::empty(),
        code_section_count(s) == 0,
{
    CodeSection::new()
}

/// `Module::section` with a `DataSection`: appends the section id 11, the
/// section size, the number of entries and the entries. The size is
/// encoded from a `usize`, which must not exceed `u32::MAX`.
#[verifier::external_body]
pub(crate) fn module_add_data_section(m: &mut Module, s: &DataSection)
    requires
        data_section_bytes(*s).len() + 5 <= u32::MAX,
    ensures
        module_content(*final(m)) == module_content(*old(m)) + section(
            11,
            data_section_count(*s),
            data_section_bytes(*s),
        ),
{
    m.section(s);
}

/// `DataSection::new`: no entries.
#[verifier::external_body]
pub(crate) fn data_section_new() -> (s: DataSection)
    ensures
        data_section_bytes(s) == Seq::<u8>::empty(),
        data_section_count(s) == 0,
{
    DataSection::new()
}

/// `TypeSection::ty` then `CoreTypeEncoder::function`: appends `0x60`, the
/// parameter types and the result types, each list with its length first.
/// The entry count is a `u32`; the list lengths are encoded from `usize`.
#[verifier::external_body]
pub(crate) fn type_section_add(s: &mut TypeSection, params: &Vec<ValKind>, results: &Vec<ValKind>)
    requires
        type_section_count(*old(s)) < u32::MAX,
        params@.len() <= u32::MAX,
        results@.len() <= u32::MAX,
    ensures
        type_section_bytes(*final(s)) == type_section_bytes(*old(s)) + type_entry(
            (params@, results@),
        ),
        type_section_count(*final(s)) == type_section_count(*old(s)) + 1,
{
    let conv = |k: &ValKind|
        match k {
            ValKind::I32 => ValType::I32,
            ValKind::F64 => ValType::F64,
        };
    s.ty().function(params.iter().map(conv), results.iter().map(conv));
}

/// `ImportSection::import` of a function of type `ty`: appends the module
/// name, the field name (each as UTF-8 length and bytes), `0x00` and `ty`.
#[verifier::external_body]
pub(crate) fn import_section_add(s: &mut ImportSection, module: &str, name: &str, ty: u32)
    requires
        import_section_count(*old(s)) < u32::MAX,
        module.spec_bytes().len() <= u32::MAX,
        name.spec_bytes().len() <= u32::MAX,
    ensures
        import_section_bytes(*final(s)) == import_section_bytes(*old(s)) + import_entry(
            ImportV { module: module@, name: name@, ty },
        ),
        import_section_count(*final(s)) == import_section_count(*old(s)) + 1,
{
    s.import(module, name, EntityType::Function(ty));
}

/// `FunctionSection::function`: appends the type index.
#[verifier::external_body]
pub(crate) fn function_section_add(s: &mut FunctionSection, ty: u32)
    requires
        function_section_count(*old(s)) < u32::MAX,
    ensures
        function_section_bytes(*final(s)) == function_section_bytes(*old(s)) + func_entry(ty),
        function_section_count(*final(s)) == function_section_count(*old(s)) + 1,
{
    s.function(ty);
}

/// `MemorySection::memory` of a 32-bit, unshared memory of at least
/// `pages` pages with no maximum and the default page size: appends the
/// flags byte 0 and `pages`.
#[verifier::external_body]
pub(crate) fn memory_section_add(s: &mut MemorySection, pages: u64)
    requires
        memory_section_count(*old(s)) < u32::MAX,
    ensures
        memory_section_bytes(*final(s)) == memory_section_bytes(*old(s)) + memory_entry(pages),
        memory_section_count(*final(s)) == memory_section_count(*old(s)) + 1,
{
    s.memory(
        MemoryType {
            minimum: pages,
            maximum: None,
            memory64: false,
            shared: false,
            page_size_log2: None,
        },
    );
}

/// `ExportSection::export`: appends the name (UTF-8 length and bytes), the
/// kind (`0x00` function, `0x02` memory) and the index.
#[verifier::external_body]
pub(crate) fn export_section_add(s: &mut ExportSection, name: &str, kind: ExportKind, index: u32)
    requires
        export_section_count(*old(s)) < u32::MAX,
        name.spec_bytes().len() <= u32::MAX,
    ensures
        export_section_bytes(*final(s)) == export_section_bytes(*old(s)) + export_entry(
            ExportV { name: name@, kind, index },
        ),
        export_section_count(*final(s)) == export_section_count(*old(s)) + 1,
{
    let k = match kind {
        ExportKind::Func => wasm_encoder::ExportKind::Func,
        ExportKind::Memory => wasm_encoder::ExportKind::Memory,
    };
    s.export(name, k, index);
}

/// `CodeSection::raw`: appends an encoded function body with its length
/// first.
#[verifier::external_body]
pub(crate) fn code_section_add(s: &mut CodeSection, body: &Vec<u8>)
    requires
        code_section_count(*old(s)) < u32::MAX,
        body@.len() <= u32::MAX,
    ensures
        code_section_bytes(*final(s)) == code_section_bytes(*old(s)) + uleb(body@.len()) + body@,
        code_section_count(*final(s)) == code_section_count(*old(s)) + 1,
{
    s.raw(body.as_slice());
}

/// `DataSection::active` for memory 0 at `ConstExpr::i32_const(offset as
/// i32)`: appends `0x00`, the constant expression (`0x41`, the offset,
/// `0x0B`), the data length and the data.
#[verifier::external_body]
pub(crate) fn data_section_add(s: &mut DataSection, offset: u32, bytes: &Vec<u8>)
    requires
        data_section_count(*old(s)) < u32::MAX,
        bytes@.len() <= u32::MAX,
    ensures
        data_section_bytes(*final(s)) == data_section_bytes(*old(s)) + data_entry(
            (offset, bytes@),
        ),
        data_section_count(*final(s)) == data_section_count(*old(s)) + 1,
{
    s.active(0, &ConstExpr::i32_const(offset as i32), bytes.iter().copied());
}

/// `Function::new` with the given local groups, then `into_raw_body`: the
/// number of groups, then each group's count and type.
#[verifier::external_body]
pub(crate) fn function_locals(locals: &Vec<(u32, ValKind)>) -> (r: Vec<u8>)
    requires
        locals@.len() <= u32::MAX,
    ensures
        r@ == locals_bytes(locals@),
{
    let conv = |g: &(u32, ValKind)|
        match g.1 {
            ValKind::I32 => (g.0, ValType::I32),
            ValKind::F64 => (g.0, ValType::F64),
        };
    Function::new(locals.iter().map(conv)).into_raw_body()
}

/// `InstructionSink::i32_const`: appends its opcode and the signed LEB128 of the value.
#[verifier::external_body]
pub(crate) fn put_i32_const(sink: &mut Vec<u8>, v: i32)
    ensures
        final(sink)@ == old(sink)@ + seq![0x41u8] + sleb(v as int),
{
    InstructionSink::new(sink).i32_const(v);
}

/// `InstructionSink::i64_const`: appends its opcode and the signed LEB128 of the value.
#[verifier::external_body]
pub(crate) fn put_i64_const(sink: &mut Vec<u8>, v: i64)
    ensures
        final(sink)@ == old(sink)@ + seq![0x42u8] + sleb(v as int),
{
    InstructionSink::new(sink).i64_const(v);
}

/// `InstructionSink::f64_convert_i32_s`: appends its opcode.
#[verifier::external_body]
pub(crate) fn put_f64_convert_i32_s(sink: &mut Vec<u8>)
    ensures
        final(sink)@ == old(sink)@ + seq![0xB7u8],
{
    InstructionSink::new(sink).f64_convert_i32_s();
}

/// `InstructionSink::f64_convert_i64_u`: appends its opcode.
#[verifier::external_body]
pub(crate) fn put_f64_convert_i64_u(sink: &mut Vec<u8>)
    ensures
        final(sink)@ == old(sink)@ + seq![0xBAu8],
{
    InstructionSink::new(sink).f64_convert_i64_u();
}

/// `InstructionSink::local_get`: appends its opcode and the unsigned LEB128 of the index.
#[verifier::external_body]
pub(crate) fn put_local_get(sink: &mut Vec<u8>, n: u32)
    ensures
        final(sink)@ == old(sink)@ + seq![0x20u8] + uleb(n as nat),
{
    InstructionSink::new(sink).local_get(n);
}

/// `InstructionSink::local_set`: appends its opcode and the unsigned LEB128 of the index.
#[verifier::external_body]
pub(crate) fn put_local_set(sink: &mut Vec<u8>, n: u32)
    ensures
        final(sink)@ == old(sink)@ + seq![0x21u8] + uleb(n as nat),
{
    InstructionSink::new(sink).local_set(n);
}

/// `InstructionSink::local_tee`: appends its opcode and the unsigned LEB128 of the index.
#[verifier::external_body]
pub(crate) fn put_local_tee(sink: &mut Vec<u8>, n: u32)
    ensures
        final(sink)@ == old(sink)@ + seq![0x22u8] + uleb(n as nat),
{
    InstructionSink::new(sink).local_tee(n);
}

/// `InstructionSink::call`: appends its opcode and the unsigned LEB128 of the index.
#[verifier::external_body]
pub(crate) fn put_call(sink: &mut Vec<u8>, n: u32)
    ensures
        final(sink)@ == old(sink)@ + seq![0x10u8] + uleb(n as nat),
{
    InstructionSink::new(sink).call(n);
}

/// `InstructionSink::drop`: appends its opcode.
#[verifier::external_body]
pub(crate) fn put_drop(sink: &mut Vec<u8>)
    ensures
        final(sink)@ == old(sink)@ + seq![0x1Au8],
{
    InstructionSink::new(sink).drop();
}

/// `InstructionSink::return_`: appends its opcode.
#[verifier::external_body]
pub(crate) fn put_return(sink: &mut Vec<u8>)
    ensures
        final(sink)@ == old(sink)@ + seq![0x0Fu8],
{
    InstructionSink::new(sink).return_();
}

/// `InstructionSink::unreachable`: appends its opcode.
#[verifier::external_body]
pub(crate) fn put_unreachable(sink: &mut Vec<u8>)
    ensures
        final(sink)@ == old(sink)@ + seq![0x00u8],
{
    InstructionSink::new(sink).unreachable();
}

/// `InstructionSink::if_` with `BlockType::Empty`: appends its opcode and the empty block type `0x40`.
#[verifier::external_body]
pub(crate) fn put_if(sink: &mut Vec<u8>)
    ensures
        final(sink)@ == old(sink)@ + seq![0x04u8, 0x40u8],
{
    InstructionSink::new(sink).if_(BlockType::Empty);
}

/// `InstructionSink::if_` with `BlockType::Result(ValType::I32)`: appends its opcode and the block type `i32` (`0x7F`).
#[verifier::external_body]
pub(crate) fn put_if_i32(sink: &mut Vec<u8>)
    ensures
        final(sink)@ == old(sink)@ + seq![0x04u8, 0x7Fu8],
{
    InstructionSink::new(sink).if_(BlockType::Result(ValType::I32));
}

/// `InstructionSink::else_`: appends its opcode.
#[verifier::external_body]
pub(crate) fn put_else(sink: &mut Vec<u8>)
    ensures
        final(sink)@ == old(sink)@ + seq![0x05u8],
{
    InstructionSink::new(sink).else_();
}

/// `InstructionSink::end`: appends its opcode.
#[verifier::external_body]
pub(crate) fn put_end(sink: &mut Vec<u8>)
    ensures
        final(sink)@ == old(sink)@ + seq![0x0Bu8],
{
    InstructionSink::new(sink).end();
}

/// `InstructionSink::block` with `BlockType::Empty`: appends its opcode and the empty block type `0x40`.
#[verifier::external_body]
pub(crate) fn put_block(sink: &mut Vec<u8>)
    ensures
        final(sink)@ == old(sink)@ + seq![0x02u8, 0x40u8],
{
    InstructionSink::new(sink).block(BlockType::Empty);
}

/// `InstructionSink::loop_` with `BlockType::Empty`: appends its opcode and the empty block type `0x40`.
#[verifier::external_body]
pub(crate) fn put_loop(sink: &mut Vec<u8>)
    ensures
        final(sink)@ == old(sink)@ + seq![0x03u8, 0x40u8],
{
    InstructionSink::new(sink).loop_(BlockType::Empty);
}

/// `InstructionSink::br`: appends its opcode and the unsigned LEB128 of the index.
#[verifier::external_body]
pub(crate) fn put_br(sink: &mut Vec<u8>, n: u32)
    ensures
        final(sink)@ == old(sink)@ + seq![0x0Cu8] + uleb(n as nat),
{
    InstructionSink::new(sink).br(n);
}

/// `InstructionSink::br_if`: appends its opcode and the unsigned LEB128 of the index.
#[verifier::external_body]
pub(crate) fn put_br_if(sink: &mut Vec<u8>, n: u32)
    ensures
        final(sink)@ == old(sink)@ + seq![0x0Du8] + uleb(n as nat),
{
    InstructionSink::new(sink).br_if(n);
}

/// `InstructionSink::i32_load` with a natural-alignment `MemArg` of memory 0: appends its opcode, the alignment 2 and the offset 0 (memory 0).
#[verifier::external_body]
pub(crate) fn put_i32_load(sink: &mut Vec<u8>)
    ensures
        final(sink)@ == old(sink)@ + seq![0x28u8, 0x02u8, 0x00u8],
{
    InstructionSink::new(sink).i32_load(MemArg { offset: 0, align: 2, target: MemArgTarget::Memory(0), ordering: None });
}

/// `InstructionSink::i32_store` with a natural-alignment `MemArg` of memory 0: appends its opcode, the alignment 2 and the offset 0 (memory 0).
#[verifier::external_body]
pub(crate) fn put_i32_store(sink: &mut Vec<u8>)
    ensures
        final(sink)@ == old(sink)@ + seq![0x36u8, 0x02u8, 0x00u8],
{
    InstructionSink::new(sink).i32_store(MemArg { offset: 0, align: 2, target: MemArgTarget::Memory(0), ordering: None });
}

/// `InstructionSink::i32_eqz`: appends its opcode.
#[verifier::external_body]
pub(crate) fn put_i32_eqz(sink: &mut Vec<u8>)
    ensures
        final(sink)@ == old(sink)@ + seq![0x45u8],
{
    InstructionSink::new(sink).i32_eqz();
}

/// `InstructionSink::i32_add`: appends its opcode.
#[verifier::external_body]
pub(crate) fn put_i32_add(sink: &mut Vec<u8>)
    ensures
        final(sink)@ == old(sink)@ + seq![0x6Au8],
{
    InstructionSink::new(sink).i32_add();
}

/// `InstructionSink::i32_sub`: appends its opcode.
#[verifier::external_body]
pub(crate) fn put_i32_sub(sink: &mut Vec<u8>)
    ensures
        final(sink)@ == old(sink)@ + seq![0x6Bu8],
{
    InstructionSink::new(sink).i32_sub();
}

/// `InstructionSink::i32_mul`: appends its opcode.
#[verifier::external_body]
pub(crate) fn put_i32_mul(sink: &mut Vec<u8>)
    ensures
        final(sink)@ == old(sink)@ + seq![0x6Cu8],
{
    InstructionSink::new(sink).i32_mul();
}

/// `InstructionSink::i32_div_s`: appends its opcode.
#[verifier::external_body]
pub(crate) fn put_i32_div_s(sink: &mut Vec<u8>)
    ensures
        final(sink)@ == old(sink)@ + seq![0x6Du8],
{
    InstructionSink::new(sink).i32_div_s();
}

/// `InstructionSink::i32_and`: appends its opcode.
#[verifier::external_body]
pub(crate) fn put_i32_and(sink: &mut Vec<u8>)
    ensures
        final(sink)@ == old(sink)@ + seq![0x71u8],
{
    InstructionSink::new(sink).i32_and();
}

/// `InstructionSink::i32_or`: appends its opcode.
#[verifier::external_body]
pub(crate) fn put_i32_or(sink: &mut Vec<u8>)
    ensures
        final(sink)@ == old(sink)@ + seq![0x72u8],
{
    InstructionSink::new(sink).i32_or();
}

/// `InstructionSink::i32_xor`: appends its opcode.
#[verifier::external_body]
pub(crate) fn put_i32_xor(sink: &mut Vec<u8>)
    ensures
        final(sink)@ == old(sink)@ + seq![0x73u8],
{
    InstructionSink::new(sink).i32_xor();
}

/// `InstructionSink::i32_shl`: appends its opcode.
#[verifier::external_body]
pub(crate) fn put_i32_shl(sink: &mut Vec<u8>)
    ensures
        final(sink)@ == old(sink)@ + seq![0x74u8],
{
    InstructionSink::new(sink).i32_shl();
}

/// `InstructionSink::i32_shr_s`: appends its opcode.
#[verifier::external_body]
pub(crate) fn put_i32_shr_s(sink: &mut Vec<u8>)
    ensures
        final(sink)@ == old(sink)@ + seq![0x75u8],
{
    InstructionSink::new(sink).i32_shr_s();
}

/// `InstructionSink::i32_shr_u`: appends its opcode.
#[verifier::external_body]
pub(crate) fn put_i32_shr_u(sink: &mut Vec<u8>)
    ensures
        final(sink)@ == old(sink)@ + seq![0x76u8],
{
    InstructionSink::new(sink).i32_shr_u();
}

/// `InstructionSink::i32_eq`: appends its opcode.
#[verifier::external_body]
pub(crate) fn put_i32_eq(sink: &mut Vec<u8>)
    ensures
        final(sink)@ == old(sink)@ + seq![0x46u8],
{
    InstructionSink::new(sink).i32_eq();
}

/// `InstructionSink::i32_ne`: appends its opcode.
#[verifier::external_body]
pub(crate) fn put_i32_ne(sink: &mut Vec<u8>)
    ensures
        final(sink)@ == old(sink)@ + seq![0x47u8],
{
    InstructionSink::new(sink).i32_ne();
}

/// `InstructionSink::i32_lt_s`: appends its opcode.
#[verifier::external_body]
pub(crate) fn put_i32_lt_s(sink: &mut Vec<u8>)
    ensures
        final(sink)@ == old(sink)@ + seq![0x48u8],
{
    InstructionSink::new(sink).i32_lt_s();
}

/// `InstructionSink::i32_le_s`: appends its opcode.
#[verifier::external_body]
pub(crate) fn put_i32_le_s(sink: &mut Vec<u8>)
    ensures
        final(sink)@ == old(sink)@ + seq![0x4Cu8],
{
    InstructionSink::new(sink).i32_le_s();
}

/// `InstructionSink::i32_gt_s`: appends its opcode.
#[verifier::external_body]
pub(crate) fn put_i32_gt_s(sink: &mut Vec<u8>)
    ensures
        final(sink)@ == old(sink)@ + seq![0x4Au8],
{
    InstructionSink::new(sink).i32_gt_s();
}

/// `InstructionSink::i32_ge_s`: appends its opcode.
#[verifier::external_body]
pub(crate) fn put_i32_ge_s(sink: &mut Vec<u8>)
    ensures
        final(sink)@ == old(sink)@ + seq![0x4Eu8],
{
    InstructionSink::new(sink).i32_ge_s();
}

/// `InstructionSink::f64_add`: appends its opcode.
#[verifier::external_body]
pub(crate) fn put_f64_add(sink: &mut Vec<u8>)
    ensures
        final(sink)@ == old(sink)@ + seq![0xA0u8],
{
    InstructionSink::new(sink).f64_add();
}

/// `InstructionSink::f64_sub`: appends its opcode.
#[verifier::external_body]
pub(crate) fn put_f64_sub(sink: &mut Vec<u8>)
    ensures
        final(sink)@ == old(sink)@ + seq![0xA1u8],
{
    InstructionSink::new(sink).f64_sub();
}

/// `InstructionSink::f64_mul`: appends its opcode.
#[verifier::external_body]
pub(crate) fn put_f64_mul(sink: &mut Vec<u8>)
    ensures
        final(sink)@ == old(sink)@ + seq![0xA2u8],
{
    InstructionSink::new(sink).f64_mul();
}

/// `InstructionSink::f64_div`: appends its opcode.
#[verifier::external_body]
pub(crate) fn put_f64_div(sink: &mut Vec<u8>)
    ensures
        final(sink)@ == old(sink)@ + seq![0xA3u8],
{
    InstructionSink::new(sink).f64_div();
}

/// Appends the encoding of `i` to `sink`.
pub fn put_instr(sink: &mut Vec<u8>, i: Instr)
    ensures
        final(sink)@ == old(sink)@ + instr_bytes(i),
{
    match i {
        Instr::I32Const(v) => put_i32_const(sink, v),
        Instr::I64Const(v) => put_i64_const(sink, v),
        Instr::F64ConvertI32S => put_f64_convert_i32_s(sink),
        Instr::F64ConvertI64U => put_f64_convert_i64_u(sink),
        Instr::LocalGet(n) => put_local_get(sink, n),
        Instr::LocalSet(n) => put_local_set(sink, n),
        Instr::LocalTee(n) => put_local_tee(sink, n),
        Instr::Call(n) => put_call(sink, n),
        Instr::Drop => put_drop(sink),
        Instr::Return => put_return(sink),
        Instr::Unreachable => put_unreachable(sink),
        Instr::If => put_if(sink),
        Instr::IfI32 => put_if_i32(sink),
        Instr::Else => put_else(sink),
        Instr::End => put_end(sink),
        Instr::Block => put_block(sink),
        Instr::Loop => put_loop(sink),
        Instr::Br(n) => put_br(sink, n),
        Instr::BrIf(n) => put_br_if(sink, n),
        Instr::I32Load => put_i32_load(sink),
        Instr::I32Store => put_i32_store(sink),
        Instr::I32Eqz => put_i32_eqz(sink),
        Instr::I32Add => put_i32_add(sink),
        Instr::I32Sub => put_i32_sub(sink),
        Instr::I32Mul => put_i32_mul(sink),
        Instr::I32DivS => put_i32_div_s(sink),
        Instr::I32And => put_i32_and(sink),
        Instr::I32Or => put_i32_or(sink),
        Instr::I32Xor => put_i32_xor(sink),
        Instr::I32Shl => put_i32_shl(sink),
        Instr::I32ShrS => put_i32_shr_s(sink),
        Instr::I32ShrU => put_i32_shr_u(sink),
        Instr::I32Eq => put_i32_eq(sink),
        Instr::I32Ne => put_i32_ne(sink),
        Instr::I32LtS => put_i32_lt_s(sink),
        Instr::I32LeS => put_i32_le_s(sink),
        Instr::I32GtS => put_i32_gt_s(sink),
        Instr::I32GeS => put_i32_ge_s(sink),
        Instr::F64Add => put_f64_add(sink),
        Instr::F64Sub => put_f64_sub(sink),
        Instr::F64Mul => put_f64_mul(sink),
        Instr::F64Div => put_f64_div(sink),
    }
}

} // verus!
