//! A WebAssembly module description shared by both compilers, and its
//! encoding to the binary format through `wasm_encoder`.
use vstd::prelude::*;
use vstd::string::StringSliceAdditionalSpecFns;
use wasm_encoder::Module;
use crate::wasm_api::{
    code_section_add, code_section_bytes, code_section_count, code_section_new,
    data_section_add, data_section_bytes, data_section_count, data_section_new,
    export_section_add, export_section_bytes, export_section_count, export_section_new,
    function_locals, function_section_add, function_section_bytes, function_section_count,
    function_section_new, import_section_add, import_section_bytes, import_section_count,
    import_section_new, memory_section_add, memory_section_bytes, memory_section_count,
    memory_section_new, module_add_code_section, module_add_data_section,
    module_add_export_section, module_add_function_section, module_add_import_section,
    module_add_memory_section, module_add_type_section, module_content, module_finish,
    module_new, put_instr, type_section_add, type_section_bytes, type_section_count,
    type_section_new,
};

verus! {

/// WebAssembly value types used by the generated code.
#[derive(Debug, Clone, Copy, PartialEq, Eq, Structural)]
pub enum ValKind {
    I32,
    F64,
}

/// The WebAssembly instructions the code generators emit.
#[derive(Debug, Clone, Copy, PartialEq, Eq, Structural)]
pub enum Instr {
    I32Const(i32),
    I64Const(i64),
    F64ConvertI32S,
    F64ConvertI64U,
    LocalGet(u32),
    LocalSet(u32),
    LocalTee(u32),
    Call(u32),
    Drop,
    Return,
    Unreachable,
    /// `if` with no result.
    If,
    /// `if` with one `i32` result.
    IfI32,
    Else,
    End,
    Block,
    Loop,
    Br(u32),
    BrIf(u32),
    /// `i32.load` with natural alignment, offset 0, memory 0.
    I32Load,
    /// `i32.store` with natural alignment, offset 0, memory 0.
    I32Store,
    I32Eqz,
    I32Add,
    I32Sub,
    I32Mul,
    I32DivS,
    I32And,
    I32Or,
    I32Xor,
    I32Shl,
    I32ShrS,
    I32ShrU,
    I32Eq,
    I32Ne,
    I32LtS,
    I32LeS,
    I32GtS,
    I32GeS,
    F64Add,
    F64Sub,
    F64Mul,
    F64Div,
}

#[derive(Debug, Clone, Copy, PartialEq, Eq, Structural)]
pub enum ExportKind {
    Func,
    Memory,
}

#[derive(Debug)]
pub struct FuncType {
    pub params: Vec<ValKind>,
    pub results: Vec<ValKind>,
}

#[derive(Debug)]
pub struct Import {
    pub module: String,
    pub name: String,
    pub ty: u32,
}

#[derive(Debug)]
pub struct Export {
    pub name: String,
    pub kind: ExportKind,
    pub index: u32,
}

/// A function body: local declarations as `(count, type)` groups, then the
/// instructions (the final `end` included).
#[derive(Debug)]
pub struct Body {
    pub locals: Vec<(u32, ValKind)>,
    pub code: Vec<Instr>,
}

/// An active data segment of memory 0.
#[derive(Debug)]
pub struct DataSeg {
    pub offset: u32,
    pub bytes: Vec<u8>,
}

/// A module: function types, imported functions, the type of each defined
/// function, one memory of `memory_pages` pages, exports, the bodies of the
/// defined functions and the data segments.
#[derive(Debug)]
pub struct ModuleIr {
    pub types: Vec<FuncType>,
    pub imports: Vec<Import>,
    pub funcs: Vec<u32>,
    pub memory_pages: u64,
    pub exports: Vec<Export>,
    pub bodies: Vec<Body>,
    pub data: Vec<DataSeg>,
}

pub struct ImportV {
    pub module: Seq<char>,
    pub name: Seq<char>,
    pub ty: u32,
}

pub struct ExportV {
    pub name: Seq<char>,
    pub kind: ExportKind,
    pub index: u32,
}

pub struct BodyV {
    pub locals: Seq<(u32, ValKind)>,
    pub code: Seq<Instr>,
}

pub struct ModuleIrV {
    pub types: Seq<(Seq<ValKind>, Seq<ValKind>)>,
    pub imports: Seq<ImportV>,
    pub funcs: Seq<u32>,
    pub memory_pages: u64,
    pub exports: Seq<ExportV>,
    pub bodies: Seq<BodyV>,
    pub data: Seq<(u32, Seq<u8>)>,
}

impl View for FuncType {
    type V = (Seq<ValKind>, Seq<ValKind>);

    open spec fn view(&self) -> (Seq<ValKind>, Seq<ValKind>) {
        (self.params@, self.results@)
    }
}

impl View for Import {
    type V = ImportV;

    open spec fn view(&self) -> ImportV {
        ImportV { module: self.module@, name: self.name@, ty: self.ty }
    }
}

impl View for Export {
    type V = ExportV;

    open spec fn view(&self) -> ExportV {
        ExportV { name: self.name@, kind: self.kind, index: self.index }
    }
}

impl View for Body {
    type V = BodyV;

    open spec fn view(&self) -> BodyV {
        BodyV { locals: self.locals@, code: self.code@ }
    }
}

impl View for DataSeg {
    type V = (u32, Seq<u8>);

    open spec fn view(&self) -> (u32, Seq<u8>) {
        (self.offset, self.bytes@)
    }
}

pub open spec fn data_view(d: Seq<DataSeg>) -> Seq<(u32, Seq<u8>)> {
    d.map_values(|s: DataSeg| s@)
}

impl View for ModuleIr {
    type V = ModuleIrV;

    open spec fn view(&self) -> ModuleIrV {
        ModuleIrV {
            types: self.types@.map_values(|t: FuncType| t@),
            imports: self.imports@.map_values(|i: Import| i@),
            funcs: self.funcs@,
            memory_pages: self.memory_pages,
            exports: self.exports@.map_values(|e: Export| e@),
            bodies: self.bodies@.map_values(|b: Body| b@),
            data: data_view(self.data@),
        }
    }
}


// ---------------------------------------------------------------------------
// The binary format
// ---------------------------------------------------------------------------

/// Unsigned LEB128.
pub open spec fn uleb(n: nat) -> Seq<u8>
    decreases n,
{
    if n < 128 {
        seq![n as u8]
    } else {
        seq![(n % 128 + 128) as u8] + uleb(n / 128)
    }
}

pub open spec fn abs(v: int) -> nat {
    if v < 0 {
        (-v) as nat
    } else {
        v as nat
    }
}

/// Signed LEB128: groups of 7 bits, low first, until the rest is all sign.
pub open spec fn sleb(v: int) -> Seq<u8>
    decreases abs(v),
{
    let b = v % 128;
    let rest = (v - b) / 128;
    if (rest == 0 && b < 64) || (rest == -1 && b >= 64) {
        seq![b as u8]
    } else {
        seq![(b + 128) as u8] + sleb(rest)
    }
}

pub open spec fn val_byte(k: ValKind) -> u8 {
    match k {
        ValKind::I32 => 0x7F,
        ValKind::F64 => 0x7C,
    }
}

pub open spec fn vals_bytes(vs: Seq<ValKind>) -> Seq<u8> {
    vs.map_values(|k: ValKind| val_byte(k))
}

/// The encoding of an instruction.
pub open spec fn instr_bytes(i: Instr) -> Seq<u8> {
    match i {
        Instr::I32Const(v) => seq![0x41u8] + sleb(v as int),
        Instr::I64Const(v) => seq![0x42u8] + sleb(v as int),
        Instr::F64ConvertI32S => seq![0xB7u8],
        Instr::F64ConvertI64U => seq![0xBAu8],
        Instr::LocalGet(n) => seq![0x20u8] + uleb(n as nat),
        Instr::LocalSet(n) => seq![0x21u8] + uleb(n as nat),
        Instr::LocalTee(n) => seq![0x22u8] + uleb(n as nat),
        Instr::Call(n) => seq![0x10u8] + uleb(n as nat),
        Instr::Drop => seq![0x1Au8],
        Instr::Return => seq![0x0Fu8],
        Instr::Unreachable => seq![0x00u8],
        Instr::If => seq![0x04u8, 0x40u8],
        Instr::IfI32 => seq![0x04u8, 0x7Fu8],
        Instr::Else => seq![0x05u8],
        Instr::End => seq![0x0Bu8],
        Instr::Block => seq![0x02u8, 0x40u8],
        Instr::Loop => seq![0x03u8, 0x40u8],
        Instr::Br(n) => seq![0x0Cu8] + uleb(n as nat),
        Instr::BrIf(n) => seq![0x0Du8] + uleb(n as nat),
        Instr::I32Load => seq![0x28u8, 0x02u8, 0x00u8],
        Instr::I32Store => seq![0x36u8, 0x02u8, 0x00u8],
        Instr::I32Eqz => seq![0x45u8],
        Instr::I32Add => seq![0x6Au8],
        Instr::I32Sub => seq![0x6Bu8],
        Instr::I32Mul => seq![0x6Cu8],
        Instr::I32DivS => seq![0x6Du8],
        Instr::I32And => seq![0x71u8],
        Instr::I32Or => seq![0x72u8],
        Instr::I32Xor => seq![0x73u8],
        Instr::I32Shl => seq![0x74u8],
        Instr::I32ShrS => seq![0x75u8],
        Instr::I32ShrU => seq![0x76u8],
        Instr::I32Eq => seq![0x46u8],
        Instr::I32Ne => seq![0x47u8],
        Instr::I32LtS => seq![0x48u8],
        Instr::I32LeS => seq![0x4Cu8],
        Instr::I32GtS => seq![0x4Au8],
        Instr::I32GeS => seq![0x4Eu8],
        Instr::F64Add => seq![0xA0u8],
        Instr::F64Sub => seq![0xA1u8],
        Instr::F64Mul => seq![0xA2u8],
        Instr::F64Div => seq![0xA3u8],
    }
}

/// The encodings of the instructions, one after the other.
pub open spec fn code_bytes(code: Seq<Instr>) -> Seq<u8>
    decreases code.len(),
{
    if code.len() == 0 {
        Seq::empty()
    } else {
        code_bytes(code.drop_last()) + instr_bytes(code.last())
    }
}

/// A name: its UTF-8 length, then its UTF-8 bytes.
pub open spec fn name_bytes(s: Seq<char>) -> Seq<u8> {
    uleb(vstd::utf8::encode_utf8(s).len()) + vstd::utf8::encode_utf8(s)
}

pub open spec fn local_group_bytes(g: (u32, ValKind)) -> Seq<u8> {
    uleb(g.0 as nat) + seq![val_byte(g.1)]
}

pub open spec fn groups_bytes(ls: Seq<(u32, ValKind)>) -> Seq<u8>
    decreases ls.len(),
{
    if ls.len() == 0 {
        Seq::empty()
    } else {
        groups_bytes(ls.drop_last()) + local_group_bytes(ls.last())
    }
}

/// The local declarations that begin a function body.
pub open spec fn locals_bytes(ls: Seq<(u32, ValKind)>) -> Seq<u8> {
    uleb(ls.len()) + groups_bytes(ls)
}

pub open spec fn body_bytes(b: BodyV) -> Seq<u8> {
    locals_bytes(b.locals) + code_bytes(b.code)
}

pub open spec fn type_entry(t: (Seq<ValKind>, Seq<ValKind>)) -> Seq<u8> {
    seq![0x60u8] + uleb(t.0.len()) + vals_bytes(t.0) + uleb(t.1.len()) + vals_bytes(t.1)
}

pub open spec fn import_entry(i: ImportV) -> Seq<u8> {
    name_bytes(i.module) + name_bytes(i.name) + seq![0x00u8] + uleb(i.ty as nat)
}

pub open spec fn func_entry(ty: u32) -> Seq<u8> {
    uleb(ty as nat)
}

pub open spec fn memory_entry(pages: u64) -> Seq<u8> {
    seq![0x00u8] + uleb(pages as nat)
}

pub open spec fn kind_byte(k: ExportKind) -> u8 {
    match k {
        ExportKind::Func => 0x00,
        ExportKind::Memory => 0x02,
    }
}

pub open spec fn export_entry(e: ExportV) -> Seq<u8> {
    name_bytes(e.name) + seq![kind_byte(e.kind)] + uleb(e.index as nat)
}

pub open spec fn code_entry(b: BodyV) -> Seq<u8> {
    uleb(body_bytes(b).len()) + body_bytes(b)
}

/// An active segment of memory 0 at offset `i32.const offset`.
pub open spec fn data_entry(d: (u32, Seq<u8>)) -> Seq<u8> {
    seq![0x00u8, 0x41u8] + sleb((d.0 as i32) as int) + seq![0x0Bu8] + uleb(d.1.len()) + d.1
}

/// A section: its id, its size, the number of entries, the entries.
pub open spec fn section(id: u8, count: nat, content: Seq<u8>) -> Seq<u8> {
    seq![id] + uleb(uleb(count).len() + content.len()) + uleb(count) + content
}

pub open spec fn types_content(ts: Seq<(Seq<ValKind>, Seq<ValKind>)>) -> Seq<u8>
    decreases ts.len(),
{
    if ts.len() == 0 {
        Seq::empty()
    } else {
        types_content(ts.drop_last()) + type_entry(ts.last())
    }
}

pub open spec fn imports_content(is: Seq<ImportV>) -> Seq<u8>
    decreases is.len(),
{
    if is.len() == 0 {
        Seq::empty()
    } else {
        imports_content(is.drop_last()) + import_entry(is.last())
    }
}

pub open spec fn funcs_content(fs: Seq<u32>) -> Seq<u8>
    decreases fs.len(),
{
    if fs.len() == 0 {
        Seq::empty()
    } else {
        funcs_content(fs.drop_last()) + func_entry(fs.last())
    }
}

pub open spec fn exports_content(es: Seq<ExportV>) -> Seq<u8>
    decreases es.len(),
{
    if es.len() == 0 {
        Seq::empty()
    } else {
        exports_content(es.drop_last()) + export_entry(es.last())
    }
}

pub open spec fn code_content(bs: Seq<BodyV>) -> Seq<u8>
    decreases bs.len(),
{
    if bs.len() == 0 {
        Seq::empty()
    } else {
        code_content(bs.drop_last()) + code_entry(bs.last())
    }
}

pub open spec fn data_content(ds: Seq<(u32, Seq<u8>)>) -> Seq<u8>
    decreases ds.len(),
{
    if ds.len() == 0 {
        Seq::empty()
    } else {
        data_content(ds.drop_last()) + data_entry(ds.last())
    }
}

/// The magic number and version 1.
pub open spec fn header() -> Seq<u8> {
    seq![0x00u8, 0x61u8, 0x73u8, 0x6Du8, 0x01u8, 0x00u8, 0x00u8, 0x00u8]
}

/// The binary encoding of a module: the header; then the type, import,
/// function, memory, export, code and data sections in that order, the
/// import and data sections only where they have entries.
pub open spec fn module_bytes(m: ModuleIrV) -> Seq<u8> {
    header() + section(1, m.types.len(), types_content(m.types)) + (if m.imports.len() > 0 {
        section(2, m.imports.len(), imports_content(m.imports))
    } else {
        Seq::empty()
    }) + section(3, m.funcs.len(), funcs_content(m.funcs)) + section(
        5,
        1,
        memory_entry(m.memory_pages),
    ) + section(7, m.exports.len(), exports_content(m.exports)) + section(
        10,
        m.bodies.len(),
        code_content(m.bodies),
    ) + (if m.data.len() > 0 {
        section(11, m.data.len(), data_content(m.data))
    } else {
        Seq::empty()
    })
}


// ---------------------------------------------------------------------------
// Encoding
// ---------------------------------------------------------------------------

proof fn lemma_uleb_step(n: nat)
    requires
        n >= 128,
    ensures
        uleb(n).len() == 1 + uleb(n / 128).len(),
{
}

/// The length of the unsigned LEB128 of `n`.
pub fn uleb_len(n: u64) -> (r: u64)
    ensures
        r == uleb(n as nat).len(),
        1 <= r <= 10,
{
    let mut k: u64 = n;
    let mut len: u64 = 1;
    while k >= 128
        invariant
            1 <= len <= 10,
            uleb(n as nat).len() == len - 1 + uleb(k as nat).len(),
            len == 1 ==> k == n,
            len == 2 ==> k < 0x200_0000_0000_0000,
            len == 3 ==> k < 0x4_0000_0000_0000,
            len == 4 ==> k < 0x800_0000_0000,
            len == 5 ==> k < 0x10_0000_0000,
            len == 6 ==> k < 0x2000_0000,
            len == 7 ==> k < 0x40_0000,
            len == 8 ==> k < 0x8000,
            len == 9 ==> k < 0x100,
            len == 10 ==> k < 2,
        decreases k,
    {
        proof {
            lemma_uleb_step(k as nat);
        }
        k = k / 128;
        len = len + 1;
    }
    len
}


proof fn lemma_sleb_step(v: int)
    ensures
        sleb(v).len() == if -64 <= v < 64 {
            1
        } else {
            1 + sleb(v / 128).len()
        },
{
    let b = v % 128;
    assert((v - b) / 128 == v / 128);
}

fn floor_div128(k: i64) -> (r: i64)
    ensures
        r == k as int / 128,
{
    if k >= 0 {
        k / 128
    } else {
        -((-(k + 1)) / 128) - 1
    }
}

/// The length of the signed LEB128 of `v`.
pub fn sleb_len(v: i32) -> (r: u64)
    ensures
        r == sleb(v as int).len(),
        1 <= r <= 5,
{
    let mut k: i64 = v as i64;
    let mut len: u64 = 1;
    while !(-64 <= k && k < 64)
        invariant
            1 <= len <= 5,
            sleb(v as int).len() == len - 1 + sleb(k as int).len(),
            len == 1 ==> k == v,
            len == 2 ==> -0x100_0000 <= k < 0x100_0000,
            len == 3 ==> -0x2_0000 <= k < 0x2_0000,
            len == 4 ==> -0x400 <= k < 0x400,
            len == 5 ==> -8 <= k < 8,
        decreases abs(k as int),
    {
        proof {
            lemma_sleb_step(k as int);
        }
        k = floor_div128(k);
        len = len + 1;
    }
    proof {
        lemma_sleb_step(k as int);
    }
    len
}


/// `n` capped at `u64::MAX`.
pub open spec fn sat(n: int) -> u64 {
    if n > u64::MAX {
        u64::MAX
    } else {
        n as u64
    }
}

pub open spec fn utf8_len(s: Seq<char>) -> nat {
    vstd::utf8::encode_utf8(s).len()
}

pub open spec fn types_fit(m: ModuleIrV) -> bool {
    &&& m.types.len() < u32::MAX
    &&& forall|j: int|
        0 <= j < m.types.len() ==> (#[trigger] m.types[j]).0.len() <= u32::MAX && m.types[j].1.len()
            <= u32::MAX
    &&& types_content(m.types).len() + 5 <= u32::MAX
}

pub open spec fn imports_fit(m: ModuleIrV) -> bool {
    &&& m.imports.len() < u32::MAX
    &&& forall|j: int|
        0 <= j < m.imports.len() ==> utf8_len((#[trigger] m.imports[j]).module) <= u32::MAX
            && utf8_len(m.imports[j].name) <= u32::MAX
    &&& imports_content(m.imports).len() + 5 <= u32::MAX
}

pub open spec fn funcs_fit(m: ModuleIrV) -> bool {
    &&& m.funcs.len() < u32::MAX
    &&& funcs_content(m.funcs).len() + 5 <= u32::MAX
}

pub open spec fn exports_fit(m: ModuleIrV) -> bool {
    &&& m.exports.len() < u32::MAX
    &&& forall|j: int| 0 <= j < m.exports.len() ==> utf8_len((#[trigger] m.exports[j]).name) <= u32::MAX
    &&& exports_content(m.exports).len() + 5 <= u32::MAX
}

pub open spec fn code_fits(m: ModuleIrV) -> bool {
    &&& m.bodies.len() < u32::MAX
    &&& forall|j: int|
        0 <= j < m.bodies.len() ==> (#[trigger] m.bodies[j]).locals.len() <= u32::MAX && body_bytes(
            m.bodies[j],
        ).len() <= u32::MAX
    &&& code_content(m.bodies).len() + 5 <= u32::MAX
}

pub open spec fn data_fits(m: ModuleIrV) -> bool {
    &&& m.data.len() < u32::MAX
    &&& forall|j: int| 0 <= j < m.data.len() ==> (#[trigger] m.data[j]).1.len() <= u32::MAX
    &&& data_content(m.data).len() + 5 <= u32::MAX
}

/// Whether every count, name, list and section of the module is small
/// enough for the encoder (each is encoded from a 32-bit length).
pub open spec fn module_fits(m: ModuleIrV) -> bool {
    &&& types_fit(m)
    &&& imports_fit(m)
    &&& funcs_fit(m)
    &&& exports_fit(m)
    &&& code_fits(m)
    &&& data_fits(m)
}

fn put_types(m: &ModuleIr, module: &mut Module) -> (ok: bool)
    ensures
        ok == types_fit(m@),
        ok ==> module_content(*final(module)) == module_content(*old(module)) + section(
            1,
            m@.types.len(),
            types_content(m@.types),
        ),
{
    let ghost mv = m@;
    if m.types.len() >= 0xffff_ffff {
        return false;
    }
    let mut sec = type_section_new();
    let mut size: u64 = 0;
    let mut j: usize = 0;
    while j < m.types.len()
        invariant
            j <= m.types@.len(),
            mv == m@,
            m.types@.len() < u32::MAX,
            type_section_bytes(sec) == types_content(mv.types.take(j as int)),
            type_section_count(sec) == j,
            size == sat(types_content(mv.types.take(j as int)).len() as int),
            forall|k: int|
                0 <= k < j ==> (#[trigger] mv.types[k]).0.len() <= u32::MAX && mv.types[k].1.len()
                    <= u32::MAX,
        decreases m.types@.len() - j,
    {
        let t = &m.types[j];
        assert(mv.types[j as int] == (t.params@, t.results@));
        if t.params.len() > 0xffff_ffff || t.results.len() > 0xffff_ffff {
            return false;
        }
        type_section_add(&mut sec, &t.params, &t.results);
        let e: u64 = 1 + uleb_len(t.params.len() as u64) + t.params.len() as u64 + uleb_len(
            t.results.len() as u64,
        ) + t.results.len() as u64;
        proof {
            assert(mv.types.take(j + 1).drop_last() =~= mv.types.take(j as int));
            assert(type_entry(mv.types[j as int]).len() == e);
        }
        size = size.saturating_add(e);
        j = j + 1;
    }
    assert(mv.types.take(j as int) =~= mv.types);
    if size > 0xffff_ffff - 5 {
        return false;
    }
    module_add_type_section(module, &sec);
    true
}

fn put_imports(m: &ModuleIr, module: &mut Module) -> (ok: bool)
    ensures
        ok == imports_fit(m@),
        ok ==> module_content(*final(module)) == module_content(*old(module)) + section(
            2,
            m@.imports.len(),
            imports_content(m@.imports),
        ),
{
    let ghost mv = m@;
    if m.imports.len() >= 0xffff_ffff {
        return false;
    }
    let mut sec = import_section_new();
    let mut size: u64 = 0;
    let mut j: usize = 0;
    while j < m.imports.len()
        invariant
            j <= m.imports@.len(),
            mv == m@,
            m.imports@.len() < u32::MAX,
            import_section_bytes(sec) == imports_content(mv.imports.take(j as int)),
            import_section_count(sec) == j,
            size == sat(imports_content(mv.imports.take(j as int)).len() as int),
            forall|k: int|
                0 <= k < j ==> utf8_len((#[trigger] mv.imports[k]).module) <= u32::MAX && utf8_len(
                    mv.imports[k].name,
                ) <= u32::MAX,
        decreases m.imports@.len() - j,
    {
        let imp = &m.imports[j];
        assert(mv.imports[j as int] == imp@);
        let ml = imp.module.as_str().as_bytes().len();
        let nl = imp.name.as_str().as_bytes().len();
        if ml > 0xffff_ffff || nl > 0xffff_ffff {
            return false;
        }
        import_section_add(&mut sec, imp.module.as_str(), imp.name.as_str(), imp.ty);
        let e: u64 = uleb_len(ml as u64) + ml as u64 + uleb_len(nl as u64) + nl as u64 + 1
            + uleb_len(imp.ty as u64);
        proof {
            assert(mv.imports.take(j + 1).drop_last() =~= mv.imports.take(j as int));
            assert(import_entry(mv.imports[j as int]).len() == e);
        }
        size = size.saturating_add(e);
        j = j + 1;
    }
    assert(mv.imports.take(j as int) =~= mv.imports);
    if size > 0xffff_ffff - 5 {
        return false;
    }
    module_add_import_section(module, &sec);
    true
}

fn put_funcs(m: &ModuleIr, module: &mut Module) -> (ok: bool)
    ensures
        ok == funcs_fit(m@),
        ok ==> module_content(*final(module)) == module_content(*old(module)) + section(
            3,
            m@.funcs.len(),
            funcs_content(m@.funcs),
        ),
{
    let ghost mv = m@;
    if m.funcs.len() >= 0xffff_ffff {
        return false;
    }
    let mut sec = function_section_new();
    let mut size: u64 = 0;
    let mut j: usize = 0;
    while j < m.funcs.len()
        invariant
            j <= m.funcs@.len(),
            mv == m@,
            m.funcs@.len() < u32::MAX,
            function_section_bytes(sec) == funcs_content(mv.funcs.take(j as int)),
            function_section_count(sec) == j,
            size == sat(funcs_content(mv.funcs.take(j as int)).len() as int),
        decreases m.funcs@.len() - j,
    {
        let ty = m.funcs[j];
        function_section_add(&mut sec, ty);
        let e: u64 = uleb_len(ty as u64);
        proof {
            assert(mv.funcs.take(j + 1).drop_last() =~= mv.funcs.take(j as int));
        }
        size = size.saturating_add(e);
        j = j + 1;
    }
    assert(mv.funcs.take(j as int) =~= mv.funcs);
    if size > 0xffff_ffff - 5 {
        return false;
    }
    module_add_function_section(module, &sec);
    true
}

fn put_exports(m: &ModuleIr, module: &mut Module) -> (ok: bool)
    ensures
        ok == exports_fit(m@),
        ok ==> module_content(*final(module)) == module_content(*old(module)) + section(
            7,
            m@.exports.len(),
            exports_content(m@.exports),
        ),
{
    let ghost mv = m@;
    if m.exports.len() >= 0xffff_ffff {
        return false;
    }
    let mut sec = export_section_new();
    let mut size: u64 = 0;
    let mut j: usize = 0;
    while j < m.exports.len()
        invariant
            j <= m.exports@.len(),
            mv == m@,
            m.exports@.len() < u32::MAX,
            export_section_bytes(sec) == exports_content(mv.exports.take(j as int)),
            export_section_count(sec) == j,
            size == sat(exports_content(mv.exports.take(j as int)).len() as int),
            forall|k: int| 0 <= k < j ==> utf8_len((#[trigger] mv.exports[k]).name) <= u32::MAX,
        decreases m.exports@.len() - j,
    {
        let ex = &m.exports[j];
        assert(mv.exports[j as int] == ex@);
        let nl = ex.name.as_str().as_bytes().len();
        if nl > 0xffff_ffff {
            return false;
        }
        export_section_add(&mut sec, ex.name.as_str(), ex.kind, ex.index);
        let e: u64 = uleb_len(nl as u64) + nl as u64 + 1 + uleb_len(ex.index as u64);
        proof {
            assert(mv.exports.take(j + 1).drop_last() =~= mv.exports.take(j as int));
            assert(export_entry(mv.exports[j as int]).len() == e);
        }
        size = size.saturating_add(e);
        j = j + 1;
    }
    assert(mv.exports.take(j as int) =~= mv.exports);
    if size > 0xffff_ffff - 5 {
        return false;
    }
    module_add_export_section(module, &sec);
    true
}

/// The encoded body of a function: its locals, then its instructions.
fn encode_body(b: &Body) -> (r: Option<Vec<u8>>)
    ensures
        match r {
            Some(v) => b@.locals.len() <= u32::MAX && v@ == body_bytes(b@),
            None => b@.locals.len() > u32::MAX,
        },
{
    if b.locals.len() > 0xffff_ffff {
        return None;
    }
    let mut out = function_locals(&b.locals);
    let mut k: usize = 0;
    while k < b.code.len()
        invariant
            k <= b.code@.len(),
            out@ == locals_bytes(b.locals@) + code_bytes(b.code@.take(k as int)),
        decreases b.code@.len() - k,
    {
        let ghost o0 = out@;
        put_instr(&mut out, b.code[k]);
        proof {
            assert(b.code@.take(k + 1).drop_last() =~= b.code@.take(k as int));
            assert(out@ =~= locals_bytes(b.locals@) + code_bytes(b.code@.take(k + 1)));
        }
        k = k + 1;
    }
    assert(b.code@.take(k as int) =~= b.code@);
    Some(out)
}

fn put_code(m: &ModuleIr, module: &mut Module) -> (ok: bool)
    ensures
        ok == code_fits(m@),
        ok ==> module_content(*final(module)) == module_content(*old(module)) + section(
            10,
            m@.bodies.len(),
            code_content(m@.bodies),
        ),
{
    let ghost mv = m@;
    if m.bodies.len() >= 0xffff_ffff {
        return false;
    }
    let mut sec = code_section_new();
    let mut size: u64 = 0;
    let mut j: usize = 0;
    while j < m.bodies.len()
        invariant
            j <= m.bodies@.len(),
            mv == m@,
            m.bodies@.len() < u32::MAX,
            code_section_bytes(sec) == code_content(mv.bodies.take(j as int)),
            code_section_count(sec) == j,
            size == sat(code_content(mv.bodies.take(j as int)).len() as int),
            forall|k: int|
                0 <= k < j ==> (#[trigger] mv.bodies[k]).locals.len() <= u32::MAX && body_bytes(
                    mv.bodies[k],
                ).len() <= u32::MAX,
        decreases m.bodies@.len() - j,
    {
        assert(mv.bodies[j as int] == m.bodies@[j as int]@);
        let body = match encode_body(&m.bodies[j]) {
            None => {
                return false;
            },
            Some(v) => v,
        };
        if body.len() > 0xffff_ffff {
            return false;
        }
        code_section_add(&mut sec, &body);
        let e: u64 = uleb_len(body.len() as u64) + body.len() as u64;
        proof {
            assert(mv.bodies.take(j + 1).drop_last() =~= mv.bodies.take(j as int));
        }
        size = size.saturating_add(e);
        j = j + 1;
    }
    assert(mv.bodies.take(j as int) =~= mv.bodies);
    if size > 0xffff_ffff - 5 {
        return false;
    }
    module_add_code_section(module, &sec);
    true
}

fn put_data(m: &ModuleIr, module: &mut Module) -> (ok: bool)
    ensures
        ok == data_fits(m@),
        ok ==> module_content(*final(module)) == module_content(*old(module)) + section(
            11,
            m@.data.len(),
            data_content(m@.data),
        ),
{
    let ghost mv = m@;
    if m.data.len() >= 0xffff_ffff {
        return false;
    }
    let mut sec = data_section_new();
    let mut size: u64 = 0;
    let mut j: usize = 0;
    while j < m.data.len()
        invariant
            j <= m.data@.len(),
            mv == m@,
            m.data@.len() < u32::MAX,
            data_section_bytes(sec) == data_content(mv.data.take(j as int)),
            data_section_count(sec) == j,
            size == sat(data_content(mv.data.take(j as int)).len() as int),
            forall|k: int| 0 <= k < j ==> (#[trigger] mv.data[k]).1.len() <= u32::MAX,
        decreases m.data@.len() - j,
    {
        let d = &m.data[j];
        assert(mv.data[j as int] == d@);
        if d.bytes.len() > 0xffff_ffff {
            return false;
        }
        data_section_add(&mut sec, d.offset, &d.bytes);
        let e: u64 = 3 + sleb_len(d.offset as i32) + uleb_len(d.bytes.len() as u64)
            + d.bytes.len() as u64;
        proof {
            assert(mv.data.take(j + 1).drop_last() =~= mv.data.take(j as int));
            assert(data_entry(mv.data[j as int]).len() == e);
        }
        size = size.saturating_add(e);
        j = j + 1;
    }
    assert(mv.data.take(j as int) =~= mv.data);
    if size > 0xffff_ffff - 5 {
        return false;
    }
    module_add_data_section(module, &sec);
    true
}

/// Encodes a module in the binary format, or `None` where a count, a name,
/// a list or a section is too large for the encoder.
pub fn encode_module(m: &ModuleIr) -> (r: Option<Vec<u8>>)
    ensures
        match r {
            Some(b) => module_fits(m@) && b@ == module_bytes(m@),
            None => !module_fits(m@),
        },
{
    let ghost mv = m@;
    let mut module = module_new();
    let ghost c0 = module_content(module);
    if !put_types(m, &mut module) {
        return None;
    }
    let ghost c1 = module_content(module);
    if m.imports.len() > 0 {
        if !put_imports(m, &mut module) {
            return None;
        }
    } else {
        assert(imports_content(mv.imports) =~= Seq::<u8>::empty());
    }
    let ghost c2 = module_content(module);
    assert(c2 == c1 + (if mv.imports.len() > 0 {
        section(2, mv.imports.len(), imports_content(mv.imports))
    } else {
        Seq::empty()
    }));
    if !put_funcs(m, &mut module) {
        return None;
    }
    let ghost c3 = module_content(module);
    let mut mem = memory_section_new();
    memory_section_add(&mut mem, m.memory_pages);
    let pl = uleb_len(m.memory_pages);
    module_add_memory_section(&mut module, &mem);
    let ghost c4 = module_content(module);
    if !put_exports(m, &mut module) {
        return None;
    }
    let ghost c5 = module_content(module);
    if !put_code(m, &mut module) {
        return None;
    }
    let ghost c6 = module_content(module);
    if m.data.len() > 0 {
        if !put_data(m, &mut module) {
            return None;
        }
    } else {
        assert(data_content(mv.data) =~= Seq::<u8>::empty());
    }
    let ghost c7 = module_content(module);
    assert(c7 == c6 + (if mv.data.len() > 0 {
        section(11, mv.data.len(), data_content(mv.data))
    } else {
        Seq::empty()
    }));
    assert(memory_entry(mv.memory_pages) =~= seq![0x00u8] + uleb(mv.memory_pages as nat));
    assert(c7 =~= module_bytes(mv));
    Some(module_finish(module))
}

} // verus!
