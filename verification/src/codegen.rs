//! Lowering of a parsed program to a WebAssembly module description
//! (`ModuleIr`), which `wasm::encode_module` turns into bytes.
//!
//! Layout of the module: function 0 is the host import `env.print(ptr,len)`;
//! then the `import fn` items (module `env`), in source order; then the
//! `fn` / `export fn` items, in source order; then `__alloc(len)`, a bump
//! allocator over the memory after the string data, with which a host
//! makes room for a string it returns. Function `k` has type `k`. One page
//! of memory is exported as `memory`, each `export fn` under its name, and
//! `__alloc`. String literals become active data segments placed one after the
//! other from offset 0; a string value is the pair `(ptr, len)`.
use vstd::prelude::*;
use crate::ast::{
    BinOp, Decimal, Expr, ExprV, Function, FunctionV, ImportFn, ImportFnV, Item, ItemV, Param,
    ParamV, Program, ProgramV, Stmt, StmtV, Type, expr_view, exprs_view, stmt_view, stmts_view,
    lemma_exprs_view, lemma_stmts_view, params_view,
};
use crate::lexer::pow10;
use crate::wasm::{
    Body, BodyV, DataSeg, Export, ExportKind, ExportV, FuncType, Import, ImportV, Instr, ModuleIr,
    ModuleIrV, ValKind, data_view, encode_module, module_bytes, module_fits,
};

verus! {

#[derive(Debug)]
pub enum CodegenError {
    MissingMain,
    UnsupportedType,
    MissingReturn,
    UnknownVariable(String),
    PrintNonLiteral,
    UnknownFunction(String),
    ArityMismatch(String),
    TypeMismatch,
}

pub enum CodegenErrorV {
    MissingMain,
    UnsupportedType,
    MissingReturn,
    UnknownVariable(Seq<char>),
    PrintNonLiteral,
    UnknownFunction(Seq<char>),
    ArityMismatch(Seq<char>),
    TypeMismatch,
}

impl View for CodegenError {
    type V = CodegenErrorV;

    open spec fn view(&self) -> CodegenErrorV {
        match self {
            CodegenError::MissingMain => CodegenErrorV::MissingMain,
            CodegenError::UnsupportedType => CodegenErrorV::UnsupportedType,
            CodegenError::MissingReturn => CodegenErrorV::MissingReturn,
            CodegenError::UnknownVariable(s) => CodegenErrorV::UnknownVariable(s@),
            CodegenError::PrintNonLiteral => CodegenErrorV::PrintNonLiteral,
            CodegenError::UnknownFunction(s) => CodegenErrorV::UnknownFunction(s@),
            CodegenError::ArityMismatch(s) => CodegenErrorV::ArityMismatch(s@),
            CodegenError::TypeMismatch => CodegenErrorV::TypeMismatch,
        }
    }
}

// ---------------------------------------------------------------------------
// Specification of the lowering
// ---------------------------------------------------------------------------

/// The wasm values a value of type `t` occupies (a string is `ptr, len`).
pub open spec fn vkinds(t: Type) -> Seq<ValKind> {
    match t {
        Type::I32 => seq![ValKind::I32],
        Type::Bool => seq![ValKind::I32],
        Type::F64 => seq![ValKind::F64],
        Type::String => seq![ValKind::I32, ValKind::I32],
        _ => Seq::empty(),
    }
}

/// Types a local, parameter or argument can have.
pub open spec fn storable(t: Type) -> bool {
    !(t is Void || t is JsObj)
}

pub open spec fn int_like(t: Type) -> bool {
    t is I32 || t is Bool
}

pub struct BindingV {
    pub name: Seq<char>,
    pub ty: Type,
    pub idx: int,
}

/// State threaded through the lowering of one function: the visible local
/// bindings (the last one of a name wins), the declared locals after the
/// parameters, the number of parameter slots, and the data segments laid out
/// so far with the next free data offset.
pub struct LStateV {
    pub locals: Seq<BindingV>,
    pub decls: Seq<ValKind>,
    pub nparams: int,
    pub data: Seq<(u32, Seq<u8>)>,
    pub off: u32,
}

pub struct SigV {
    pub name: Seq<char>,
    pub params: Seq<Type>,
    pub ret: Type,
}

pub type LRes<T> = Result<T, CodegenErrorV>;

pub open spec fn lookup(locals: Seq<BindingV>, name: Seq<char>) -> Option<BindingV>
    decreases locals.len(),
{
    if locals.len() == 0 {
        None
    } else if locals.last().name == name {
        Some(locals.last())
    } else {
        lookup(locals.drop_last(), name)
    }
}

pub open spec fn next_local(st: LStateV) -> int {
    st.nparams + st.decls.len()
}

/// Binds `name` to a value of type `t`: the slots of an earlier binding of
/// the name with the same wasm values are reused, otherwise new locals are
/// declared.
pub open spec fn bind(st: LStateV, name: Seq<char>, t: Type) -> LRes<(BindingV, LStateV)> {
    match lookup(st.locals, name) {
        Some(b) if vkinds(b.ty) == vkinds(t) => {
            let nb = BindingV { name, ty: t, idx: b.idx };
            Ok((nb, LStateV { locals: st.locals.push(nb), ..st }))
        },
        _ => {
            let idx = next_local(st);
            if idx + vkinds(t).len() > u32::MAX {
                Err(CodegenErrorV::UnsupportedType)
            } else {
                let nb = BindingV { name, ty: t, idx };
                Ok(
                    (
                        nb,
                        LStateV { locals: st.locals.push(nb), decls: st.decls + vkinds(t), ..st },
                    ),
                )
            }
        },
    }
}

pub open spec fn get_code(b: BindingV) -> Seq<Instr> {
    if b.ty is String {
        seq![Instr::LocalGet(b.idx as u32), Instr::LocalGet((b.idx + 1) as u32)]
    } else {
        seq![Instr::LocalGet(b.idx as u32)]
    }
}

pub open spec fn set_code(b: BindingV) -> Seq<Instr> {
    if b.ty is String {
        seq![Instr::LocalSet((b.idx + 1) as u32), Instr::LocalSet(b.idx as u32)]
    } else {
        seq![Instr::LocalSet(b.idx as u32)]
    }
}

pub open spec fn sat_add(a: u32, b: u32) -> u32 {
    if a + b > u32::MAX {
        u32::MAX
    } else {
        (a + b) as u32
    }
}

/// Lays out the UTF-8 bytes of `s` as the next data segment: its pointer,
/// its length and the new state.
pub open spec fn alloc_str(st: LStateV, s: Seq<char>) -> LRes<(u32, u32, LStateV)> {
    let bytes = vstd::utf8::encode_utf8(s);
    if bytes.len() > u32::MAX {
        Err(CodegenErrorV::UnsupportedType)
    } else {
        let len = bytes.len() as u32;
        Ok(
            (
                st.off,
                len,
                LStateV { data: st.data.push((st.off, bytes)), off: sat_add(st.off, len), ..st },
            ),
        )
    }
}

pub open spec fn str_code(ptr: u32, len: u32) -> Seq<Instr> {
    seq![Instr::I32Const(ptr as i32), Instr::I32Const(len as i32)]
}

/// Code that pushes `10^n` as an f64: a power up to `10^19` is one u64
/// constant, a larger one the product of `10^19` and the rest.
pub open spec fn pow10_code(n: nat) -> Seq<Instr>
    decreases n,
{
    if n <= 19 {
        seq![Instr::I64Const(pow10(n) as u64 as i64), Instr::F64ConvertI64U]
    } else {
        seq![Instr::I64Const(10_000_000_000_000_000_000u64 as i64), Instr::F64ConvertI64U]
            + pow10_code((n - 19) as nat) + seq![Instr::F64Mul]
    }
}

/// A decimal literal `m * 10^e / 10^s` computed in f64 arithmetic (exact,
/// hence correctly rounded, while `m < 2^53`, `e == 0` and `s <= 22`).
pub open spec fn float_code(d: Decimal) -> Seq<Instr> {
    seq![Instr::I64Const(d.mantissa as i64), Instr::F64ConvertI64U] + (if d.exponent == 0 {
        Seq::empty()
    } else {
        pow10_code(d.exponent as nat) + seq![Instr::F64Mul]
    }) + (if d.scale == 0 {
        Seq::empty()
    } else {
        pow10_code(d.scale as nat) + seq![Instr::F64Div]
    })
}

/// The code converting a value of type `from` where one of type `to` is
/// expected, if the types are compatible.
pub open spec fn coerce(from: Type, to: Type) -> Option<Seq<Instr>> {
    if int_like(from) && int_like(to) {
        Some(Seq::empty())
    } else if int_like(from) && to is F64 {
        Some(seq![Instr::F64ConvertI32S])
    } else if from == to && (from is F64 || from is String || from is Void) {
        Some(Seq::empty())
    } else {
        None
    }
}

pub open spec fn drop_code(t: Type) -> Seq<Instr> {
    if t is String {
        seq![Instr::Drop, Instr::Drop]
    } else if t is Void || t is JsObj {
        Seq::empty()
    } else {
        seq![Instr::Drop]
    }
}

pub open spec fn to_f64(t: Type) -> Seq<Instr> {
    if t is F64 {
        Seq::empty()
    } else {
        seq![Instr::F64ConvertI32S]
    }
}

pub open spec fn i32_arith(op: BinOp) -> Instr {
    match op {
        BinOp::Add => Instr::I32Add,
        BinOp::Sub => Instr::I32Sub,
        BinOp::Mul => Instr::I32Mul,
        _ => Instr::I32DivS,
    }
}

pub open spec fn f64_arith(op: BinOp) -> Instr {
    match op {
        BinOp::Add => Instr::F64Add,
        BinOp::Sub => Instr::F64Sub,
        BinOp::Mul => Instr::F64Mul,
        _ => Instr::F64Div,
    }
}

pub open spec fn i32_compare(op: BinOp) -> Instr {
    match op {
        BinOp::Eq => Instr::I32Eq,
        BinOp::Ne => Instr::I32Ne,
        BinOp::Lt => Instr::I32LtS,
        BinOp::Le => Instr::I32LeS,
        BinOp::Gt => Instr::I32GtS,
        _ => Instr::I32GeS,
    }
}

pub open spec fn is_arith(op: BinOp) -> bool {
    op is Add || op is Sub || op is Mul || op is Div
}

/// Code and type of `l op r` from the code and types of its operands.
/// `&&` and `||` evaluate their right operand only when needed and give 0
/// or 1; arithmetic on an `f64` and an integer converts the integer.
pub open spec fn binop_code(op: BinOp, il: Seq<Instr>, tl: Type, ir: Seq<Instr>, tr: Type) -> LRes<
    (Seq<Instr>, Type),
> {
    if op is And {
        if int_like(tl) && int_like(tr) {
            Ok(
                (
                    il + seq![Instr::IfI32] + ir + seq![
                        Instr::I32Eqz,
                        Instr::I32Eqz,
                        Instr::Else,
                        Instr::I32Const(0),
                        Instr::End,
                    ],
                    Type::Bool,
                ),
            )
        } else {
            Err(CodegenErrorV::TypeMismatch)
        }
    } else if op is Or {
        if int_like(tl) && int_like(tr) {
            Ok(
                (
                    il + seq![Instr::IfI32, Instr::I32Const(1), Instr::Else] + ir + seq![
                        Instr::I32Eqz,
                        Instr::I32Eqz,
                        Instr::End,
                    ],
                    Type::Bool,
                ),
            )
        } else {
            Err(CodegenErrorV::TypeMismatch)
        }
    } else if is_arith(op) {
        if int_like(tl) && int_like(tr) {
            Ok((il + ir + seq![i32_arith(op)], Type::I32))
        } else if (int_like(tl) || tl is F64) && (int_like(tr) || tr is F64) {
            Ok((il + to_f64(tl) + ir + to_f64(tr) + seq![f64_arith(op)], Type::F64))
        } else {
            Err(CodegenErrorV::TypeMismatch)
        }
    } else {
        if int_like(tl) && int_like(tr) {
            Ok((il + ir + seq![i32_compare(op)], Type::Bool))
        } else {
            Err(CodegenErrorV::TypeMismatch)
        }
    }
}

/// Index of the first function named `name` among `cx[k..]`.
pub open spec fn find_fn(cx: Seq<SigV>, name: Seq<char>, k: int) -> Option<int>
    decreases cx.len() - k,
{
    if k < 0 || k >= cx.len() {
        None
    } else if cx[k].name == name {
        Some(k)
    } else {
        find_fn(cx, name, k + 1)
    }
}

pub open spec fn spec_lower_expr(cx: Seq<SigV>, e: ExprV, st: LStateV) -> LRes<
    (Seq<Instr>, Type, LStateV),
>
    decreases e, 0nat,
{
    match e {
        ExprV::Int(n) => Ok((seq![Instr::I32Const(n)], Type::I32, st)),
        ExprV::Float(d) => Ok((float_code(d), Type::F64, st)),
        ExprV::Bool(b) => Ok((seq![Instr::I32Const(if b { 1 } else { 0 })], Type::Bool, st)),
        ExprV::Str(s) => match alloc_str(st, s) {
            Err(e) => Err(e),
            Ok((ptr, len, st2)) => Ok((str_code(ptr, len), Type::String, st2)),
        },
        ExprV::Var(name) => match lookup(st.locals, name) {
            Some(b) => Ok((get_code(b), b.ty, st)),
            None => Err(CodegenErrorV::UnknownVariable(name)),
        },
        ExprV::Call { callee, args } => match find_fn(cx, callee, 1) {
            None => Err(CodegenErrorV::UnknownFunction(callee)),
            Some(k) => if args.len() != cx[k].params.len() {
                Err(CodegenErrorV::ArityMismatch(callee))
            } else {
                match spec_lower_args(cx, args, 0, cx[k].params, st) {
                    Err(e) => Err(e),
                    Ok((code, st2)) => Ok((code + seq![Instr::Call(k as u32)], cx[k].ret, st2)),
                }
            },
        },
        ExprV::Not(inner) => match spec_lower_expr(cx, *inner, st) {
            Err(e) => Err(e),
            Ok((code, t, st2)) => if int_like(t) {
                Ok((code + seq![Instr::I32Eqz], Type::Bool, st2))
            } else {
                Err(CodegenErrorV::TypeMismatch)
            },
        },
        ExprV::Binary { op, left, right } => match spec_lower_expr(cx, *left, st) {
            Err(e) => Err(e),
            Ok((il, tl, st1)) => match spec_lower_expr(cx, *right, st1) {
                Err(e) => Err(e),
                Ok((ir, tr, st2)) => match binop_code(op, il, tl, ir, tr) {
                    Err(e) => Err(e),
                    Ok((code, t)) => Ok((code, t, st2)),
                },
            },
        },
        _ => Err(CodegenErrorV::UnsupportedType),
    }
}

/// Code of the arguments `args[k..]`, each converted to its parameter type.
pub open spec fn spec_lower_args(
    cx: Seq<SigV>,
    args: Seq<ExprV>,
    k: int,
    params: Seq<Type>,
    st: LStateV,
) -> LRes<(Seq<Instr>, LStateV)>
    decreases args, args.len() - k,
{
    if k < 0 || k >= args.len() {
        Ok((Seq::empty(), st))
    } else {
        match spec_lower_expr(cx, args[k], st) {
            Err(e) => Err(e),
            Ok((code, t, st1)) => match coerce(t, params[k]) {
                None => Err(CodegenErrorV::TypeMismatch),
                Some(conv) => match spec_lower_args(cx, args, k + 1, params, st1) {
                    Err(e) => Err(e),
                    Ok((rest, st2)) => Ok((code + conv + rest, st2)),
                },
            },
        }
    }
}

pub open spec fn spec_lower_stmt(cx: Seq<SigV>, s: StmtV, st: LStateV, ret: Type) -> LRes<
    (Seq<Instr>, LStateV),
>
    decreases s, 0nat,
{
    match s {
        StmtV::Let { name, expr } => match spec_lower_expr(cx, expr, st) {
            Err(e) => Err(e),
            Ok((code, t, st1)) => if !storable(t) {
                Err(CodegenErrorV::TypeMismatch)
            } else {
                match bind(st1, name, t) {
                    Err(e) => Err(e),
                    Ok((b, st2)) => Ok((code + set_code(b), st2)),
                }
            },
        },
        StmtV::Return(expr) => match spec_lower_expr(cx, expr, st) {
            Err(e) => Err(e),
            Ok((code, t, st1)) => match coerce(t, ret) {
                None => Err(CodegenErrorV::TypeMismatch),
                Some(conv) => Ok((code + conv + seq![Instr::Return], st1)),
            },
        },
        StmtV::Print(expr) => match expr {
            ExprV::Str(s) => match alloc_str(st, s) {
                Err(e) => Err(e),
                Ok((ptr, len, st1)) => Ok((str_code(ptr, len) + seq![Instr::Call(0)], st1)),
            },
            _ => match spec_lower_expr(cx, expr, st) {
                Err(e) => Err(e),
                Ok((code, t, st1)) => if t is String {
                    Ok((code + seq![Instr::Call(0)], st1))
                } else {
                    Err(CodegenErrorV::PrintNonLiteral)
                },
            },
        },
        StmtV::Expr(expr) => match spec_lower_expr(cx, expr, st) {
            Err(e) => Err(e),
            Ok((code, t, st1)) => Ok((code + drop_code(t), st1)),
        },
        StmtV::If { cond, then_body, else_body } => match spec_lower_expr(cx, cond, st) {
            Err(e) => Err(e),
            Ok((cc, t, st1)) => if !int_like(t) {
                Err(CodegenErrorV::TypeMismatch)
            } else {
                match spec_lower_block(cx, then_body, 0, st1, ret) {
                    Err(e) => Err(e),
                    Ok((tc, st2)) => match else_body {
                        None => Ok((cc + seq![Instr::If] + tc + seq![Instr::End], st2)),
                        Some(eb) => match spec_lower_block(cx, eb, 0, st2, ret) {
                            Err(e) => Err(e),
                            Ok((ec, st3)) => Ok(
                                (
                                    cc + seq![Instr::If] + tc + seq![Instr::Else] + ec + seq![
                                        Instr::End,
                                    ],
                                    st3,
                                ),
                            ),
                        },
                    },
                }
            },
        },
        StmtV::While { cond, body } => match spec_lower_expr(cx, cond, st) {
            Err(e) => Err(e),
            Ok((cc, t, st1)) => if !int_like(t) {
                Err(CodegenErrorV::TypeMismatch)
            } else {
                match spec_lower_block(cx, body, 0, st1, ret) {
                    Err(e) => Err(e),
                    Ok((bc, st2)) => Ok(
                        (
                            seq![Instr::Block, Instr::Loop] + cc + seq![
                                Instr::I32Eqz,
                                Instr::BrIf(1),
                            ] + bc + seq![Instr::Br(0), Instr::End, Instr::End],
                            st2,
                        ),
                    ),
                }
            },
        },
    }
}

/// Code of the statements `b[k..]`, up to and including the first `return`
/// among them: the statements after it are never run and are not lowered.
pub open spec fn spec_lower_block(cx: Seq<SigV>, b: Seq<StmtV>, k: int, st: LStateV, ret: Type) -> LRes<
    (Seq<Instr>, LStateV),
>
    decreases b, b.len() - k,
{
    if k < 0 || k >= b.len() {
        Ok((Seq::empty(), st))
    } else {
        match spec_lower_stmt(cx, b[k], st, ret) {
            Err(e) => Err(e),
            Ok((c1, st1)) => if b[k] is Return {
                Ok((c1, st1))
            } else {
                match spec_lower_block(cx, b, k + 1, st1, ret) {
                    Err(e) => Err(e),
                    Ok((c2, st2)) => Ok((c1 + c2, st2)),
                }
            },
        }
    }
}

/// Whether every run of the statement ends in a `return`.
pub open spec fn stmt_returns(s: StmtV) -> bool
    decreases s, 0nat,
{
    match s {
        StmtV::Return(_) => true,
        StmtV::If { then_body, else_body: Some(eb), .. } => block_returns(then_body, 0)
            && block_returns(eb, 0),
        _ => false,
    }
}

/// Whether every run of the statements `b[k..]` ends in a `return`.
pub open spec fn block_returns(b: Seq<StmtV>, k: int) -> bool
    decreases b, b.len() - k,
{
    if k < 0 || k >= b.len() {
        false
    } else {
        stmt_returns(b[k]) || block_returns(b, k + 1)
    }
}

pub open spec fn flat_vkinds(ts: Seq<Type>) -> Seq<ValKind>
    decreases ts.len(),
{
    if ts.len() == 0 {
        Seq::empty()
    } else {
        flat_vkinds(ts.drop_last()) + vkinds(ts.last())
    }
}

pub open spec fn param_types(ps: Seq<ParamV>) -> Seq<Type> {
    ps.map_values(|p: ParamV| p.ty)
}

/// The wasm type of a signature, if all its types can be passed.
pub open spec fn lower_sig(s: SigV) -> Option<(Seq<ValKind>, Seq<ValKind>)> {
    if (forall|k: int| 0 <= k < s.params.len() ==> storable(#[trigger] s.params[k])) && !(
    s.ret is JsObj) && flat_vkinds(s.params).len() <= u32::MAX {
        Some((flat_vkinds(s.params), vkinds(s.ret)))
    } else {
        None
    }
}

/// Bindings of the parameters `ps[..k]`, numbered from slot 0.
pub open spec fn param_bindings(ps: Seq<ParamV>, k: int) -> Seq<BindingV>
    decreases k,
{
    if k <= 0 {
        Seq::empty()
    } else {
        param_bindings(ps, k - 1).push(
            BindingV {
                name: ps[k - 1].name,
                ty: ps[k - 1].ty,
                idx: flat_vkinds(param_types(ps).take(k - 1)).len() as int,
            },
        )
    }
}

/// Lowers one defined function, continuing the data layout `data`/`off`.
pub open spec fn spec_lower_fn(cx: Seq<SigV>, f: FunctionV, data: Seq<(u32, Seq<u8>)>, off: u32) -> LRes<
    (BodyV, Seq<(u32, Seq<u8>)>, u32),
> {
    let st0 = LStateV {
        locals: param_bindings(f.params, f.params.len() as int),
        decls: Seq::empty(),
        nparams: flat_vkinds(param_types(f.params)).len() as int,
        data,
        off,
    };
    match spec_lower_block(cx, f.body, 0, st0, f.ret_ty) {
        Err(e) => Err(e),
        Ok((code, st1)) => if !(f.ret_ty is Void) && !block_returns(f.body, 0) {
            Err(CodegenErrorV::MissingReturn)
        } else {
            let tail = if f.ret_ty is Void {
                seq![Instr::End]
            } else {
                seq![Instr::Unreachable, Instr::End]
            };
            Ok((BodyV { locals: local_groups(st1.decls), code: code + tail }, st1.data, st1.off))
        },
    }
}

/// One local declaration group per declared local.
pub open spec fn local_groups(decls: Seq<ValKind>) -> Seq<(u32, ValKind)> {
    decls.map_values(|k: ValKind| (1u32, k))
}

pub open spec fn fn_sig(f: FunctionV) -> SigV {
    SigV { name: f.name, params: param_types(f.params), ret: f.ret_ty }
}

pub open spec fn import_sig(f: ImportFnV) -> SigV {
    SigV { name: f.name, params: param_types(f.params), ret: f.ret_ty }
}

pub open spec fn print_sig() -> SigV {
    SigV { name: Seq::empty(), params: seq![Type::String], ret: Type::Void }
}

pub open spec fn imported(items: Seq<ItemV>) -> Seq<ImportFnV>
    decreases items.len(),
{
    if items.len() == 0 {
        Seq::empty()
    } else {
        match items.last() {
            ItemV::ImportFn(f) => imported(items.drop_last()).push(f),
            _ => imported(items.drop_last()),
        }
    }
}

/// The `fn` and `export fn` items, each with whether it is exported.
pub open spec fn defined(items: Seq<ItemV>) -> Seq<(bool, FunctionV)>
    decreases items.len(),
{
    if items.len() == 0 {
        Seq::empty()
    } else {
        match items.last() {
            ItemV::ExportFn(f) => defined(items.drop_last()).push((true, f)),
            ItemV::Fn(f) => defined(items.drop_last()).push((false, f)),
            _ => defined(items.drop_last()),
        }
    }
}

/// The first `export fn main`.
pub open spec fn find_main(items: Seq<ItemV>, k: int) -> Option<FunctionV>
    decreases items.len() - k,
{
    if k < 0 || k >= items.len() {
        None
    } else {
        match items[k] {
            ItemV::ExportFn(f) => if f.name == "main"@ {
                Some(f)
            } else {
                find_main(items, k + 1)
            },
            _ => find_main(items, k + 1),
        }
    }
}

/// All function signatures by function index.
pub open spec fn import_sigs(fs: Seq<ImportFnV>) -> Seq<SigV> {
    fs.map_values(|f: ImportFnV| import_sig(f))
}

pub open spec fn def_sigs(ds: Seq<(bool, FunctionV)>) -> Seq<SigV> {
    ds.map_values(|d: (bool, FunctionV)| fn_sig(d.1))
}

pub open spec fn module_sigs(items: Seq<ItemV>) -> Seq<SigV> {
    seq![print_sig()] + import_sigs(imported(items)) + def_sigs(defined(items))
}

pub open spec fn lower_types(cx: Seq<SigV>) -> Option<Seq<(Seq<ValKind>, Seq<ValKind>)>> {
    if forall|k: int| 0 <= k < cx.len() ==> #[trigger] lower_sig(cx[k]) is Some {
        Some(cx.map_values(|s: SigV| lower_sig(s).unwrap()))
    } else {
        None
    }
}

/// Lowers the defined functions `defs[k..]`.
pub open spec fn spec_lower_fns(
    cx: Seq<SigV>,
    defs: Seq<(bool, FunctionV)>,
    k: int,
    data: Seq<(u32, Seq<u8>)>,
    off: u32,
) -> LRes<(Seq<BodyV>, Seq<(u32, Seq<u8>)>)>
    decreases defs.len() - k,
{
    if k < 0 || k >= defs.len() {
        Ok((Seq::empty(), data))
    } else {
        match spec_lower_fn(cx, defs[k].1, data, off) {
            Err(e) => Err(e),
            Ok((body, data1, off1)) => match spec_lower_fns(cx, defs, k + 1, data1, off1) {
                Err(e) => Err(e),
                Ok((rest, data2)) => Ok((seq![body] + rest, data2)),
            },
        }
    }
}

/// Exports of the exported functions among `defs[..k]`; function `k` of
/// `defs` has index `base + k`.
pub open spec fn exports_of(defs: Seq<(bool, FunctionV)>, k: int, base: int) -> Seq<ExportV>
    decreases k,
{
    if k <= 0 {
        Seq::empty()
    } else if defs[k - 1].0 {
        exports_of(defs, k - 1, base).push(
            ExportV { name: defs[k - 1].1.name, kind: ExportKind::Func, index: (base + k - 1) as u32 },
        )
    } else {
        exports_of(defs, k - 1, base)
    }
}

pub open spec fn print_import() -> ImportV {
    ImportV { module: "env"@, name: "print"@, ty: 0 }
}

/// Imports of the `import fn` items `fs[..k]`; the one at `k` has type `k + 1`.
pub open spec fn imports_of(fs: Seq<ImportFnV>, k: int) -> Seq<ImportV>
    decreases k,
{
    if k <= 0 {
        Seq::empty()
    } else {
        imports_of(fs, k - 1).push(ImportV { module: "env"@, name: fs[k - 1].name, ty: k as u32 })
    }
}

/// Type indices of the defined functions `base .. base + n`.
pub open spec fn func_types(base: int, n: int) -> Seq<u32> {
    Seq::new(n as nat, |j: int| (base + j) as u32)
}

pub open spec fn memory_export() -> ExportV {
    ExportV { name: "memory"@, kind: ExportKind::Memory, index: 0 }
}

/// Where the string data ends: after the last segment.
pub open spec fn data_end(data: Seq<(u32, Seq<u8>)>) -> int {
    if data.len() == 0 {
        0
    } else {
        data.last().0 + data.last().1.len()
    }
}

/// The memory cell that holds the next free heap address: the first
/// multiple of 4 at or after the end of the string data.
pub open spec fn heap_cell(data: Seq<(u32, Seq<u8>)>) -> u32 {
    let e = data_end(data);
    if e <= 0xFFFF_FFF0 {
        ((e + 3) / 4 * 4) as u32
    } else {
        0xFFFF_FFF0u32
    }
}

/// `__alloc(len)`: hands out `len` bytes of the heap, which starts right
/// after its cell `h` (the cell holds 0 until the first allocation), and
/// returns their address.
pub open spec fn alloc_body(h: u32) -> BodyV {
    BodyV {
        locals: seq![(1u32, ValKind::I32)],
        code: seq![
            Instr::I32Const(h as i32),
            Instr::I32Load,
            Instr::LocalTee(1),
            Instr::I32Eqz,
            Instr::If,
            Instr::I32Const((h + 4) as i32),
            Instr::LocalSet(1),
            Instr::End,
            Instr::I32Const(h as i32),
            Instr::LocalGet(1),
            Instr::LocalGet(0),
            Instr::I32Add,
            Instr::I32Store,
            Instr::LocalGet(1),
            Instr::End,
        ],
    }
}

pub open spec fn alloc_type() -> (Seq<ValKind>, Seq<ValKind>) {
    (seq![ValKind::I32], seq![ValKind::I32])
}

pub open spec fn alloc_export(index: u32) -> ExportV {
    ExportV { name: "__alloc"@, kind: ExportKind::Func, index }
}

/// The module a program compiles to, or the first error. After the
/// defined functions comes `__alloc`, with which a host makes room for a
/// string it returns.
pub open spec fn spec_lower_module(p: ProgramV) -> LRes<ModuleIrV> {
    match find_main(p.items, 0) {
        None => Err(CodegenErrorV::MissingMain),
        Some(main) => if main.params.len() != 0 || main.ret_ty != Type::I32 {
            Err(CodegenErrorV::UnsupportedType)
        } else {
            let cx = module_sigs(p.items);
            if cx.len() >= u32::MAX {
                Err(CodegenErrorV::UnsupportedType)
            } else {
                match lower_types(cx) {
                    None => Err(CodegenErrorV::UnsupportedType),
                    Some(types) => {
                        let defs = defined(p.items);
                        let imps = imported(p.items);
                        let base: int = 1 + imps.len() as int;
                        match spec_lower_fns(cx, defs, 0, Seq::empty(), 0) {
                            Err(e) => Err(e),
                            Ok((bodies, data)) => Ok(
                                ModuleIrV {
                                    types: types.push(alloc_type()),
                                    imports: seq![print_import()] + imports_of(
                                        imps,
                                        imps.len() as int,
                                    ),
                                    funcs: func_types(base, defs.len() as int).push(cx.len() as u32),
                                    memory_pages: 1,
                                    exports: exports_of(defs, defs.len() as int, base).push(
                                        alloc_export(cx.len() as u32),
                                    ).push(memory_export()),
                                    bodies: bodies.push(alloc_body(heap_cell(data))),
                                    data,
                                },
                            ),
                        }
                    },
                }
            }
        },
    }
}

// ---------------------------------------------------------------------------
// Implementation of the lowering
// ---------------------------------------------------------------------------

pub struct Binding {
    pub name: String,
    pub ty: Type,
    pub idx: u32,
}

impl View for Binding {
    type V = BindingV;

    open spec fn view(&self) -> BindingV {
        BindingV { name: self.name@, ty: self.ty, idx: self.idx as int }
    }
}

pub struct LowerState {
    pub locals: Vec<Binding>,
    pub decls: Vec<ValKind>,
    pub nparams: u32,
    pub data: Vec<DataSeg>,
    pub off: u32,
}

impl View for LowerState {
    type V = LStateV;

    open spec fn view(&self) -> LStateV {
        LStateV {
            locals: self.locals@.map_values(|b: Binding| b@),
            decls: self.decls@,
            nparams: self.nparams as int,
            data: data_view(self.data@),
            off: self.off,
        }
    }
}

impl LowerState {
    /// Every binding's slots are valid `u32` local indices.
    pub open spec fn wf(&self) -> bool {
        forall|k: int|
            0 <= k < self.locals@.len() ==> #[trigger] self.locals@[k].idx + vkinds(
                self.locals@[k].ty,
            ).len() <= u32::MAX
    }
}

pub struct Sig {
    pub name: String,
    pub params: Vec<Type>,
    pub ret: Type,
}

impl View for Sig {
    type V = SigV;

    open spec fn view(&self) -> SigV {
        SigV { name: self.name@, params: self.params@, ret: self.ret }
    }
}

pub open spec fn sigs_view(cx: Seq<Sig>) -> Seq<SigV> {
    cx.map_values(|s: Sig| s@)
}

proof fn lemma_lookup_take(s: Seq<BindingV>, k: int, name: Seq<char>)
    requires
        0 < k <= s.len(),
    ensures
        s.take(k).last() == s[k - 1],
        s.take(k).drop_last() =~= s.take(k - 1),
{
}

/// Position of the binding of `name` that `lookup` finds.
fn find_local(locals: &Vec<Binding>, name: &String) -> (r: Option<usize>)
    ensures
        match r {
            Some(k) => k < locals@.len() && lookup(locals@.map_values(|b: Binding| b@), name@)
                == Some(locals@[k as int]@),
            None => lookup(locals@.map_values(|b: Binding| b@), name@) is None,
        },
{
    let ghost lv = locals@.map_values(|b: Binding| b@);
    let mut k = locals.len();
    proof {
        assert(lv.take(k as int) =~= lv);
    }
    while k > 0
        invariant
            k <= locals@.len(),
            lv == locals@.map_values(|b: Binding| b@),
            lookup(lv, name@) == lookup(lv.take(k as int), name@),
        decreases k,
    {
        proof {
            lemma_lookup_take(lv, k as int, name@);
        }
        if locals[k - 1].name == *name {
            return Some(k - 1);
        }
        k = k - 1;
    }
    None
}

/// `0`: no value; `1`: one i32; `2`: one f64; `3`: two i32.
pub open spec fn slot_code(t: Type) -> u8 {
    match t {
        Type::I32 => 1,
        Type::Bool => 1,
        Type::F64 => 2,
        Type::String => 3,
        _ => 0,
    }
}

fn slots_of(t: Type) -> (r: u8)
    ensures
        r == slot_code(t),
{
    match t {
        Type::I32 => 1,
        Type::Bool => 1,
        Type::F64 => 2,
        Type::String => 3,
        _ => 0,
    }
}

proof fn lemma_slot_code(a: Type, b: Type)
    ensures
        (slot_code(a) == slot_code(b)) == (vkinds(a) == vkinds(b)),
{
    if vkinds(a) == vkinds(b) {
        if slot_code(a) != slot_code(b) {
            assert(vkinds(a).len() == vkinds(b).len());
            assert(vkinds(a)[0] == vkinds(b)[0]);
        }
    }
}

fn push_vkinds(v: &mut Vec<ValKind>, t: Type)
    ensures
        final(v)@ == old(v)@ + vkinds(t),
{
    let ghost v0 = v@;
    match t {
        Type::I32 | Type::Bool => v.push(ValKind::I32),
        Type::F64 => v.push(ValKind::F64),
        Type::String => {
            v.push(ValKind::I32);
            v.push(ValKind::I32);
        },
        _ => {},
    }
    assert(v@ =~= v0 + vkinds(t));
}

/// Binds `name` to a value of type `t` (see `bind`); gives its first slot.
fn bind_local(st: &mut LowerState, name: String, t: Type) -> (r: Result<u32, CodegenError>)
    requires
        old(st).wf(),
    ensures
        final(st).wf(),
        r is Ok ==> r->Ok_0 + vkinds(t).len() <= u32::MAX,
        match r {
            Ok(idx) => bind(old(st)@, name@, t) == Ok::<_, CodegenErrorV>(
                (BindingV { name: name@, ty: t, idx: idx as int }, final(st)@),
            ),
            Err(e) => bind(old(st)@, name@, t) == Err::<(BindingV, LStateV), _>(e@),
        },
{
    let ghost lv = st.locals@.map_values(|b: Binding| b@);
    match find_local(&st.locals, &name) {
        Some(k) => {
            let old_ty = st.locals[k].ty;
            let idx = st.locals[k].idx;
            proof {
                lemma_slot_code(old_ty, t);
            }
            if slots_of(old_ty) == slots_of(t) {
                let ghost nb = BindingV { name: name@, ty: t, idx: idx as int };
                st.locals.push(Binding { name, ty: t, idx });
                proof {
                    assert(st.locals@.map_values(|b: Binding| b@) =~= lv.push(nb));
                }
                return Ok(idx);
            }
        },
        None => {},
    }
    if st.decls.len() as u64 > 0xffff_ffff {
        return Err(CodegenError::UnsupportedType);
    }
    let next: u64 = st.nparams as u64 + st.decls.len() as u64;
    let need: u64 = match t {
        Type::String => 2,
        Type::Void | Type::JsObj => 0,
        _ => 1,
    };
    assert(need == vkinds(t).len());
    if next + need > 0xffff_ffff {
        return Err(CodegenError::UnsupportedType);
    }
    let idx = next as u32;
    let ghost nb = BindingV { name: name@, ty: t, idx: idx as int };
    st.locals.push(Binding { name, ty: t, idx });
    push_vkinds(&mut st.decls, t);
    proof {
        assert(st.locals@.map_values(|b: Binding| b@) =~= lv.push(nb));
    }
    Ok(idx)
}

/// Lays out the UTF-8 bytes of `s` as the next data segment.
fn alloc_string(st: &mut LowerState, s: &String) -> (r: Result<(u32, u32), CodegenError>)
    requires
        old(st).wf(),
    ensures
        final(st).wf(),
        match r {
            Ok((ptr, len)) => alloc_str(old(st)@, s@) == Ok::<_, CodegenErrorV>(
                (ptr, len, final(st)@),
            ),
            Err(e) => alloc_str(old(st)@, s@) == Err::<(u32, u32, LStateV), _>(e@),
        },
{
    let bytes = vstd::slice::slice_to_vec(s.as_str().as_bytes());
    if bytes.len() as u64 > 0xffff_ffff {
        return Err(CodegenError::UnsupportedType);
    }
    let len = bytes.len() as u32;
    let ptr = st.off;
    let ghost d0 = data_view(st.data@);
    st.data.push(DataSeg { offset: ptr, bytes });
    st.off = if ptr as u64 + len as u64 > 0xffff_ffff {
        0xffff_ffff
    } else {
        ptr + len
    };
    proof {
        assert(data_view(st.data@) =~= d0.push((ptr, vstd::utf8::encode_utf8(s@))));
    }
    Ok((ptr, len))
}

fn pow10_u64(n: usize) -> (r: u64)
    requires
        n <= 19,
    ensures
        r == pow10(n as nat),
{
    let mut p: u64 = 1;
    let mut k: usize = 0;
    while k < n
        invariant
            k <= n <= 19,
            p == pow10(k as nat),
        decreases n - k,
    {
        proof {
            lemma_pow10_bound(k as nat);
        }
        p = p * 10;
        k = k + 1;
    }
    p
}

proof fn lemma_pow10_mono(a: nat, b: nat)
    requires
        a <= b,
    ensures
        pow10(a) <= pow10(b),
    decreases b,
{
    if a < b {
        lemma_pow10_mono(a, (b - 1) as nat);
    }
}

proof fn lemma_pow10_bound(n: nat)
    requires
        n < 19,
    ensures
        pow10(n) * 10 <= 10_000_000_000_000_000_000,
{
    reveal_with_fuel(pow10, 20);
    assert(pow10(19) == 10_000_000_000_000_000_000nat);
    lemma_pow10_mono(n + 1, 19);
}

fn pow10_code_exec(n: usize) -> (r: Vec<Instr>)
    ensures
        r@ == pow10_code(n as nat),
    decreases n,
{
    if n <= 19 {
        let p = pow10_u64(n);
        let v = vec![Instr::I64Const(p as i64), Instr::F64ConvertI64U];
        assert(v@ =~= pow10_code(n as nat));
        v
    } else {
        let mut v = vec![
            Instr::I64Const(10_000_000_000_000_000_000u64 as i64),
            Instr::F64ConvertI64U,
        ];
        let mut rest = pow10_code_exec(n - 19);
        v.append(&mut rest);
        v.push(Instr::F64Mul);
        assert(v@ =~= pow10_code(n as nat));
        v
    }
}

fn float_code_exec(d: Decimal) -> (r: Vec<Instr>)
    ensures
        r@ == float_code(d),
{
    let mut v = vec![Instr::I64Const(d.mantissa as i64), Instr::F64ConvertI64U];
    let ghost v0 = v@;
    if d.exponent != 0 {
        let mut e = pow10_code_exec(d.exponent);
        v.append(&mut e);
        v.push(Instr::F64Mul);
    }
    let ghost v1 = v@;
    assert(v1 =~= v0 + (if d.exponent == 0 {
        Seq::empty()
    } else {
        pow10_code(d.exponent as nat) + seq![Instr::F64Mul]
    }));
    if d.scale != 0 {
        let mut q = pow10_code_exec(d.scale);
        v.append(&mut q);
        v.push(Instr::F64Div);
    }
    assert(v@ =~= float_code(d));
    v
}

fn is_int_like(t: Type) -> (r: bool)
    ensures
        r == int_like(t),
{
    match t {
        Type::I32 | Type::Bool => true,
        _ => false,
    }
}

fn coerce_code(from: Type, to: Type) -> (r: Option<Vec<Instr>>)
    ensures
        match r {
            Some(c) => coerce(from, to) == Some(c@),
            None => coerce(from, to) is None,
        },
{
    if is_int_like(from) && is_int_like(to) {
        Some(Vec::new())
    } else if is_int_like(from) && to == Type::F64 {
        Some(vec![Instr::F64ConvertI32S])
    } else if from == to && (from == Type::F64 || from == Type::String || from == Type::Void) {
        Some(Vec::new())
    } else {
        None
    }
}

fn drop_code_exec(t: Type) -> (r: Vec<Instr>)
    ensures
        r@ == drop_code(t),
{
    let r = match t {
        Type::String => vec![Instr::Drop, Instr::Drop],
        Type::Void | Type::JsObj => Vec::new(),
        _ => vec![Instr::Drop],
    };
    assert(r@ =~= drop_code(t));
    r
}

fn append_code(dst: &mut Vec<Instr>, src: Vec<Instr>)
    ensures
        final(dst)@ == old(dst)@ + src@,
{
    let mut src = src;
    dst.append(&mut src);
}

fn to_f64_code(t: Type) -> (r: Vec<Instr>)
    ensures
        r@ == to_f64(t),
{
    if t == Type::F64 {
        Vec::new()
    } else {
        vec![Instr::F64ConvertI32S]
    }
}

fn and_or_code(is_and: bool, il: Vec<Instr>, ir: Vec<Instr>) -> (r: Vec<Instr>)
    ensures
        is_and ==> r@ == il@ + seq![Instr::IfI32] + ir@ + seq![
            Instr::I32Eqz,
            Instr::I32Eqz,
            Instr::Else,
            Instr::I32Const(0),
            Instr::End,
        ],
        !is_and ==> r@ == il@ + seq![Instr::IfI32, Instr::I32Const(1), Instr::Else] + ir@ + seq![
            Instr::I32Eqz,
            Instr::I32Eqz,
            Instr::End,
        ],
{
    let mut c = il;
    if is_and {
        c.push(Instr::IfI32);
        append_code(&mut c, ir);
        append_code(
            &mut c,
            vec![Instr::I32Eqz, Instr::I32Eqz, Instr::Else, Instr::I32Const(0), Instr::End],
        );
    } else {
        append_code(&mut c, vec![Instr::IfI32, Instr::I32Const(1), Instr::Else]);
        append_code(&mut c, ir);
        append_code(&mut c, vec![Instr::I32Eqz, Instr::I32Eqz, Instr::End]);
    }
    proof {
        if is_and {
            assert(c@ =~= il@ + seq![Instr::IfI32] + ir@ + seq![
                Instr::I32Eqz,
                Instr::I32Eqz,
                Instr::Else,
                Instr::I32Const(0),
                Instr::End,
            ]);
        } else {
            assert(c@ =~= il@ + seq![Instr::IfI32, Instr::I32Const(1), Instr::Else] + ir@ + seq![
                Instr::I32Eqz,
                Instr::I32Eqz,
                Instr::End,
            ]);
        }
    }
    c
}

fn arith_op(op: BinOp, f64_op: bool) -> (r: Instr)
    ensures
        r == if f64_op {
            f64_arith(op)
        } else {
            i32_arith(op)
        },
{
    match (op, f64_op) {
        (BinOp::Add, false) => Instr::I32Add,
        (BinOp::Sub, false) => Instr::I32Sub,
        (BinOp::Mul, false) => Instr::I32Mul,
        (_, false) => Instr::I32DivS,
        (BinOp::Add, true) => Instr::F64Add,
        (BinOp::Sub, true) => Instr::F64Sub,
        (BinOp::Mul, true) => Instr::F64Mul,
        (_, true) => Instr::F64Div,
    }
}

fn compare_instr(op: BinOp) -> (r: Instr)
    ensures
        r == i32_compare(op),
{
    match op {
        BinOp::Eq => Instr::I32Eq,
        BinOp::Ne => Instr::I32Ne,
        BinOp::Lt => Instr::I32LtS,
        BinOp::Le => Instr::I32LeS,
        BinOp::Gt => Instr::I32GtS,
        _ => Instr::I32GeS,
    }
}

fn binop_code_exec(op: BinOp, il: Vec<Instr>, tl: Type, ir: Vec<Instr>, tr: Type) -> (r: Result<
    (Vec<Instr>, Type),
    CodegenError,
>)
    ensures
        match r {
            Ok((c, t)) => binop_code(op, il@, tl, ir@, tr) == Ok::<_, CodegenErrorV>((c@, t)),
            Err(e) => binop_code(op, il@, tl, ir@, tr) == Err::<(Seq<Instr>, Type), _>(e@),
        },
{
    let ints = is_int_like(tl) && is_int_like(tr);
    let (is_and, is_or, arith) = match op {
        BinOp::And => (true, false, false),
        BinOp::Or => (false, true, false),
        BinOp::Add | BinOp::Sub | BinOp::Mul | BinOp::Div => (false, false, true),
        _ => (false, false, false),
    };
    if is_and || is_or {
        if !ints {
            return Err(CodegenError::TypeMismatch);
        }
        Ok((and_or_code(is_and, il, ir), Type::Bool))
    } else if arith {
        if ints {
            let mut c = il;
            append_code(&mut c, ir);
            c.push(arith_op(op, false));
            assert(c@ =~= il@ + ir@ + seq![i32_arith(op)]);
            Ok((c, Type::I32))
        } else if (is_int_like(tl) || tl == Type::F64) && (is_int_like(tr) || tr == Type::F64) {
            let mut c = il;
            append_code(&mut c, to_f64_code(tl));
            append_code(&mut c, ir);
            append_code(&mut c, to_f64_code(tr));
            c.push(arith_op(op, true));
            assert(c@ =~= il@ + to_f64(tl) + ir@ + to_f64(tr) + seq![f64_arith(op)]);
            Ok((c, Type::F64))
        } else {
            Err(CodegenError::TypeMismatch)
        }
    } else {
        if !ints {
            return Err(CodegenError::TypeMismatch);
        }
        let mut c = il;
        append_code(&mut c, ir);
        c.push(compare_instr(op));
        assert(c@ =~= il@ + ir@ + seq![i32_compare(op)]);
        Ok((c, Type::Bool))
    }
}


/// Puts `c` in front of the code of a successful result.
pub open spec fn prefix_code(c: Seq<Instr>, r: LRes<(Seq<Instr>, LStateV)>) -> LRes<
    (Seq<Instr>, LStateV),
> {
    match r {
        Ok((x, s)) => Ok((c + x, s)),
        Err(e) => Err(e),
    }
}

proof fn lemma_prefix_step(c: Seq<Instr>, mid: Seq<Instr>, r: LRes<(Seq<Instr>, LStateV)>)
    ensures
        prefix_code(c + mid, r) == prefix_code(c, prefix_code(mid, r)),
{
    match r {
        Ok((x, s)) => {
            assert(c + mid + x =~= c + (mid + x));
        },
        Err(_) => {},
    }
}

proof fn lemma_prefix_empty(r: LRes<(Seq<Instr>, LStateV)>)
    ensures
        prefix_code(Seq::empty(), r) == r,
{
    match r {
        Ok((x, s)) => {
            assert(Seq::<Instr>::empty() + x =~= x);
        },
        Err(_) => {},
    }
}

/// Index of the first function named `name` after function 0.
fn find_fn_exec(cx: &Vec<Sig>, name: &String) -> (r: Option<usize>)
    ensures
        match r {
            Some(k) => k < cx@.len() && find_fn(sigs_view(cx@), name@, 1) == Some(k as int),
            None => find_fn(sigs_view(cx@), name@, 1) is None,
        },
{
    let ghost cv = sigs_view(cx@);
    let mut k: usize = 1;
    while k < cx.len()
        invariant
            1 <= k,
            cv == sigs_view(cx@),
            find_fn(cv, name@, 1) == find_fn(cv, name@, k as int),
        decreases cx.len() - k,
    {
        if cx[k].name == *name {
            return Some(k);
        }
        k = k + 1;
    }
    None
}

fn get_code_exec(ty: Type, idx: u32) -> (r: Vec<Instr>)
    requires
        idx + vkinds(ty).len() <= u32::MAX,
    ensures
        r@ == get_code(BindingV { name: Seq::empty(), ty, idx: idx as int }),
{
    let r = if ty == Type::String {
        vec![Instr::LocalGet(idx), Instr::LocalGet(idx + 1)]
    } else {
        vec![Instr::LocalGet(idx)]
    };
    assert(r@ =~= get_code(BindingV { name: Seq::empty(), ty, idx: idx as int }));
    r
}

fn set_code_exec(ty: Type, idx: u32) -> (r: Vec<Instr>)
    requires
        idx + vkinds(ty).len() <= u32::MAX,
    ensures
        r@ == set_code(BindingV { name: Seq::empty(), ty, idx: idx as int }),
{
    let r = if ty == Type::String {
        vec![Instr::LocalSet(idx + 1), Instr::LocalSet(idx)]
    } else {
        vec![Instr::LocalSet(idx)]
    };
    assert(r@ =~= set_code(BindingV { name: Seq::empty(), ty, idx: idx as int }));
    r
}

fn str_code_exec(ptr: u32, len: u32) -> (r: Vec<Instr>)
    ensures
        r@ == str_code(ptr, len),
{
    let r = vec![Instr::I32Const(ptr as i32), Instr::I32Const(len as i32)];
    assert(r@ =~= str_code(ptr, len));
    r
}

/// Lowers an expression: its code and type (see `spec_lower_expr`).
fn lower_expr(cx: &Vec<Sig>, e: &Expr, st: &mut LowerState) -> (r: Result<
    (Vec<Instr>, Type),
    CodegenError,
>)
    requires
        old(st).wf(),
        cx@.len() <= u32::MAX,
    ensures
        final(st).wf(),
        match r {
            Ok((c, t)) => spec_lower_expr(sigs_view(cx@), e@, old(st)@) == Ok::<_, CodegenErrorV>(
                (c@, t, final(st)@),
            ),
            Err(err) => spec_lower_expr(sigs_view(cx@), e@, old(st)@) == Err::<
                (Seq<Instr>, Type, LStateV),
                _,
            >(err@),
        },
    decreases e,
{
    let ghost cv = sigs_view(cx@);
    match e {
        Expr::Int(n) => {
            let c = vec![Instr::I32Const(*n)];
            assert(c@ =~= seq![Instr::I32Const(*n)]);
            Ok((c, Type::I32))
        },
        Expr::Float(d) => Ok((float_code_exec(*d), Type::F64)),
        Expr::Bool(b) => {
            let c = vec![Instr::I32Const(if *b { 1 } else { 0 })];
            assert(c@ =~= seq![Instr::I32Const(if *b { 1 } else { 0 })]);
            Ok((c, Type::Bool))
        },
        Expr::Str(s) => match alloc_string(st, s) {
            Err(err) => Err(err),
            Ok((ptr, len)) => Ok((str_code_exec(ptr, len), Type::String)),
        },
        Expr::Var(name) => match find_local(&st.locals, name) {
            Some(k) => {
                let ty = st.locals[k].ty;
                let idx = st.locals[k].idx;
                assert(st.locals@[k as int].idx + vkinds(st.locals@[k as int].ty).len() <= u32::MAX);
                Ok((get_code_exec(ty, idx), ty))
            },
            None => Err(CodegenError::UnknownVariable(name.clone())),
        },
        Expr::Call { callee, args } => {
            let k = match find_fn_exec(cx, callee) {
                None => {
                    return Err(CodegenError::UnknownFunction(callee.clone()));
                },
                Some(k) => k,
            };
            proof {
                lemma_exprs_view(args@);
            }
            if args.len() != cx[k].params.len() {
                return Err(CodegenError::ArityMismatch(callee.clone()));
            }
            let ghost av = exprs_view(args@);
            let ghost params = cx@[k as int].params@;
            let ghost st0 = st@;
            proof {
                lemma_exprs_view(args@);
                lemma_prefix_empty(spec_lower_args(cv, av, 0, params, st0));
                assert(decreases_to!(*e => *args));
            }
            let mut code: Vec<Instr> = Vec::new();
            let mut i: usize = 0;
            while i < args.len()
                invariant
                    i <= args@.len(),
                    st.wf(),
                    cx@.len() <= u32::MAX,
                    k < cx@.len(),
                    cv == sigs_view(cx@),
                    av == exprs_view(args@),
                    av.len() == args@.len(),
                    forall|j: int| 0 <= j < args@.len() ==> #[trigger] av[j] == args@[j]@,
                    params == cx@[k as int].params@,
                    params.len() == args@.len(),
                    decreases_to!(*e => *args),
                    e@ == (ExprV::Call { callee: callee@, args: av }),
                    find_fn(cv, callee@, 1) == Some(k as int),
                    st0 == old(st)@,
                    spec_lower_args(cv, av, 0, params, st0) == prefix_code(
                        code@,
                        spec_lower_args(cv, av, i as int, params, st@),
                    ),
                decreases args@.len() - i,
            {
                let ghost sti = st@;
                let ghost ci = code@;
                proof {
                    assert(decreases_to!(*args => args@));
                    assert(decreases_to!(args@ => args@[i as int]));
                }
                let (c, t) = match lower_expr(cx, &args[i], st) {
                    Err(err) => {
                        assert(spec_lower_args(cv, av, i as int, params, sti) == Err::<
                            (Seq<Instr>, LStateV),
                            CodegenErrorV,
                        >(err@));
                        return Err(err);
                    },
                    Ok(x) => x,
                };
                let conv = match coerce_code(t, cx[k].params[i]) {
                    None => {
                        assert(spec_lower_args(cv, av, i as int, params, sti) == Err::<
                            (Seq<Instr>, LStateV),
                            CodegenErrorV,
                        >(CodegenErrorV::TypeMismatch));
                        return Err(CodegenError::TypeMismatch);
                    },
                    Some(cv2) => cv2,
                };
                let ghost mid = c@ + conv@;
                append_code(&mut code, c);
                append_code(&mut code, conv);
                proof {
                    assert(code@ =~= ci + mid);
                    lemma_prefix_step(ci, mid, spec_lower_args(cv, av, i + 1, params, st@));
                }
                i = i + 1;
            }
            proof {
                assert(code@ + Seq::<Instr>::empty() =~= code@);
            }
            let ghost c0 = code@;
            code.push(Instr::Call(k as u32));
            assert(code@ =~= c0 + seq![Instr::Call(k as u32)]);
            Ok((code, cx[k].ret))
        },
        Expr::Not(inner) => {
            let (c, t) = match lower_expr(cx, inner, st) {
                Err(err) => {
                    return Err(err);
                },
                Ok(x) => x,
            };
            if !is_int_like(t) {
                return Err(CodegenError::TypeMismatch);
            }
            let mut c = c;
            let ghost c0 = c@;
            c.push(Instr::I32Eqz);
            assert(c@ =~= c0 + seq![Instr::I32Eqz]);
            Ok((c, Type::Bool))
        },
        Expr::Binary { op, left, right } => {
            let (il, tl) = match lower_expr(cx, left, st) {
                Err(err) => {
                    return Err(err);
                },
                Ok(x) => x,
            };
            let (ir, tr) = match lower_expr(cx, right, st) {
                Err(err) => {
                    return Err(err);
                },
                Ok(x) => x,
            };
            binop_code_exec(*op, il, tl, ir, tr)
        },
        _ => Err(CodegenError::UnsupportedType),
    }
}


fn is_string(t: Type) -> (r: bool)
    ensures
        r == (t is String),
{
    match t {
        Type::String => true,
        _ => false,
    }
}

fn is_storable(t: Type) -> (r: bool)
    ensures
        r == storable(t),
{
    match t {
        Type::Void | Type::JsObj => false,
        _ => true,
    }
}

/// Lowers a statement of a function returning `ret` (see `spec_lower_stmt`).
fn lower_stmt(cx: &Vec<Sig>, s: &Stmt, st: &mut LowerState, ret: Type) -> (r: Result<
    Vec<Instr>,
    CodegenError,
>)
    requires
        old(st).wf(),
        cx@.len() <= u32::MAX,
    ensures
        final(st).wf(),
        match r {
            Ok(c) => spec_lower_stmt(sigs_view(cx@), s@, old(st)@, ret) == Ok::<_, CodegenErrorV>(
                (c@, final(st)@),
            ),
            Err(err) => spec_lower_stmt(sigs_view(cx@), s@, old(st)@, ret) == Err::<
                (Seq<Instr>, LStateV),
                _,
            >(err@),
        },
    decreases s,
{
    match s {
        Stmt::Let { name, expr } => {
            let (code, t) = match lower_expr(cx, expr, st) {
                Err(err) => {
                    return Err(err);
                },
                Ok(x) => x,
            };
            if !is_storable(t) {
                return Err(CodegenError::TypeMismatch);
            }
            let idx = match bind_local(st, name.clone(), t) {
                Err(err) => {
                    return Err(err);
                },
                Ok(idx) => idx,
            };
            let mut code = code;
            let ghost c0 = code@;
            append_code(&mut code, set_code_exec(t, idx));
            assert(set_code(BindingV { name: Seq::empty(), ty: t, idx: idx as int }) == set_code(
                BindingV { name: name@, ty: t, idx: idx as int },
            ));
            Ok(code)
        },
        Stmt::Return(expr) => {
            let (code, t) = match lower_expr(cx, expr, st) {
                Err(err) => {
                    return Err(err);
                },
                Ok(x) => x,
            };
            let conv = match coerce_code(t, ret) {
                None => {
                    return Err(CodegenError::TypeMismatch);
                },
                Some(c) => c,
            };
            let mut code = code;
            let ghost c0 = code@;
            append_code(&mut code, conv);
            code.push(Instr::Return);
            assert(code@ =~= c0 + conv@ + seq![Instr::Return]);
            Ok(code)
        },
        Stmt::Print(expr) => {
            match expr {
                Expr::Str(text) => {
                    let (ptr, len) = match alloc_string(st, text) {
                        Err(err) => {
                            return Err(err);
                        },
                        Ok(x) => x,
                    };
                    let mut code = str_code_exec(ptr, len);
                    let ghost c0 = code@;
                    code.push(Instr::Call(0));
                    assert(code@ =~= c0 + seq![Instr::Call(0)]);
                    Ok(code)
                },
                _ => {
                    let (code, t) = match lower_expr(cx, expr, st) {
                        Err(err) => {
                            return Err(err);
                        },
                        Ok(x) => x,
                    };
                    if !is_string(t) {
                        return Err(CodegenError::PrintNonLiteral);
                    }
                    let mut code = code;
                    let ghost c0 = code@;
                    code.push(Instr::Call(0));
                    assert(code@ =~= c0 + seq![Instr::Call(0)]);
                    Ok(code)
                },
            }
        },
        Stmt::Expr(expr) => {
            let (code, t) = match lower_expr(cx, expr, st) {
                Err(err) => {
                    return Err(err);
                },
                Ok(x) => x,
            };
            let mut code = code;
            append_code(&mut code, drop_code_exec(t));
            Ok(code)
        },
        Stmt::If { cond, then_body, else_body } => {
            let (cc, t) = match lower_expr(cx, cond, st) {
                Err(err) => {
                    return Err(err);
                },
                Ok(x) => x,
            };
            if !is_int_like(t) {
                return Err(CodegenError::TypeMismatch);
            }
            let tc = match lower_block(cx, then_body, st, ret) {
                Err(err) => {
                    return Err(err);
                },
                Ok(c) => c,
            };
            match else_body {
                None => {
                    let mut code = cc;
                    let ghost c0 = code@;
                    let ghost t0 = tc@;
                    code.push(Instr::If);
                    append_code(&mut code, tc);
                    code.push(Instr::End);
                    assert(code@ =~= c0 + seq![Instr::If] + t0 + seq![Instr::End]);
                    Ok(code)
                },
                Some(eb) => {
                    let ec = match lower_block(cx, eb, st, ret) {
                        Err(err) => {
                            return Err(err);
                        },
                        Ok(c) => c,
                    };
                    let mut code = cc;
                    let ghost c0 = code@;
                    let ghost t0 = tc@;
                    let ghost e0 = ec@;
                    code.push(Instr::If);
                    append_code(&mut code, tc);
                    code.push(Instr::Else);
                    append_code(&mut code, ec);
                    code.push(Instr::End);
                    assert(code@ =~= c0 + seq![Instr::If] + t0 + seq![Instr::Else] + e0 + seq![
                        Instr::End,
                    ]);
                    Ok(code)
                },
            }
        },
        Stmt::While { cond, body } => {
            let (cc, t) = match lower_expr(cx, cond, st) {
                Err(err) => {
                    return Err(err);
                },
                Ok(x) => x,
            };
            if !is_int_like(t) {
                return Err(CodegenError::TypeMismatch);
            }
            let bc = match lower_block(cx, body, st, ret) {
                Err(err) => {
                    return Err(err);
                },
                Ok(c) => c,
            };
            let ghost c0 = cc@;
            let ghost b0 = bc@;
            let mut code = vec![Instr::Block, Instr::Loop];
            append_code(&mut code, cc);
            code.push(Instr::I32Eqz);
            code.push(Instr::BrIf(1));
            append_code(&mut code, bc);
            code.push(Instr::Br(0));
            code.push(Instr::End);
            code.push(Instr::End);
            assert(code@ =~= seq![Instr::Block, Instr::Loop] + c0 + seq![
                Instr::I32Eqz,
                Instr::BrIf(1),
            ] + b0 + seq![Instr::Br(0), Instr::End, Instr::End]);
            Ok(code)
        },
    }
}

/// Lowers a sequence of statements (see `spec_lower_block`).
fn lower_block(cx: &Vec<Sig>, b: &Vec<Stmt>, st: &mut LowerState, ret: Type) -> (r: Result<
    Vec<Instr>,
    CodegenError,
>)
    requires
        old(st).wf(),
        cx@.len() <= u32::MAX,
    ensures
        final(st).wf(),
        match r {
            Ok(c) => spec_lower_block(sigs_view(cx@), stmts_view(b@), 0, old(st)@, ret) == Ok::<
                _,
                CodegenErrorV,
            >((c@, final(st)@)),
            Err(err) => spec_lower_block(sigs_view(cx@), stmts_view(b@), 0, old(st)@, ret)
                == Err::<(Seq<Instr>, LStateV), _>(err@),
        },
    decreases b,
{
    let ghost cv = sigs_view(cx@);
    let ghost bv = stmts_view(b@);
    let ghost st0 = st@;
    proof {
        lemma_stmts_view(b@);
        lemma_prefix_empty(spec_lower_block(cv, bv, 0, st0, ret));
    }
    let mut code: Vec<Instr> = Vec::new();
    let mut i: usize = 0;
    while i < b.len()
        invariant
            i <= b@.len(),
            st.wf(),
            cx@.len() <= u32::MAX,
            cv == sigs_view(cx@),
            bv == stmts_view(b@),
            bv.len() == b@.len(),
            forall|j: int| 0 <= j < b@.len() ==> #[trigger] bv[j] == b@[j]@,
            st0 == old(st)@,
            spec_lower_block(cv, bv, 0, st0, ret) == prefix_code(
                code@,
                spec_lower_block(cv, bv, i as int, st@, ret),
            ),
        decreases b@.len() - i,
    {
        let ghost sti = st@;
        let ghost ci = code@;
        proof {
            assert(decreases_to!(*b => b@));
            assert(decreases_to!(b@ => b@[i as int]));
        }
        let c = match lower_stmt(cx, &b[i], st, ret) {
            Err(err) => {
                assert(spec_lower_block(cv, bv, i as int, sti, ret) == Err::<
                    (Seq<Instr>, LStateV),
                    CodegenErrorV,
                >(err@));
                return Err(err);
            },
            Ok(c) => c,
        };
        let ghost mid = c@;
        let stop = match &b[i] {
            Stmt::Return(_) => true,
            _ => false,
        };
        append_code(&mut code, c);
        if stop {
            assert(bv[i as int] is Return);
            return Ok(code);
        }
        proof {
            lemma_prefix_step(ci, mid, spec_lower_block(cv, bv, i + 1, st@, ret));
        }
        i = i + 1;
    }
    proof {
        assert(code@ + Seq::<Instr>::empty() =~= code@);
    }
    Ok(code)
}


fn stmt_returns_exec(s: &Stmt) -> (r: bool)
    ensures
        r == stmt_returns(s@),
    decreases s,
{
    match s {
        Stmt::Return(_) => true,
        Stmt::If { then_body, else_body: Some(eb), .. } => {
            block_returns_exec(then_body) && block_returns_exec(eb)
        },
        _ => false,
    }
}

fn block_returns_exec(b: &Vec<Stmt>) -> (r: bool)
    ensures
        r == block_returns(stmts_view(b@), 0),
    decreases b,
{
    let ghost bv = stmts_view(b@);
    proof {
        lemma_stmts_view(b@);
    }
    let mut i: usize = 0;
    while i < b.len()
        invariant
            i <= b@.len(),
            bv == stmts_view(b@),
            bv.len() == b@.len(),
            forall|j: int| 0 <= j < b@.len() ==> #[trigger] bv[j] == b@[j]@,
            block_returns(bv, 0) == block_returns(bv, i as int),
        decreases b@.len() - i,
    {
        proof {
            assert(decreases_to!(*b => b@));
            assert(decreases_to!(b@ => b@[i as int]));
        }
        if stmt_returns_exec(&b[i]) {
            return true;
        }
        i = i + 1;
    }
    false
}

proof fn lemma_flat_take(ts: Seq<Type>, k: int)
    requires
        0 <= k < ts.len(),
    ensures
        flat_vkinds(ts.take(k + 1)).len() == flat_vkinds(ts.take(k)).len() + vkinds(ts[k]).len(),
{
    assert(ts.take(k + 1).drop_last() =~= ts.take(k));
}

proof fn lemma_flat_prefix(ts: Seq<Type>, k: int)
    requires
        0 <= k <= ts.len(),
    ensures
        flat_vkinds(ts.take(k)).len() <= flat_vkinds(ts).len(),
    decreases ts.len() - k,
{
    if k < ts.len() {
        lemma_flat_take(ts, k);
        lemma_flat_prefix(ts, k + 1);
    } else {
        assert(ts.take(k) =~= ts);
    }
}

fn type_slots(t: Type) -> (r: u32)
    ensures
        r == vkinds(t).len(),
{
    match t {
        Type::String => 2,
        Type::Void | Type::JsObj => 0,
        _ => 1,
    }
}

fn param_types_exec(ps: &Vec<Param>) -> (r: Vec<Type>)
    ensures
        r@ == param_types(params_view(ps@)),
{
    let mut r: Vec<Type> = Vec::new();
    let mut i: usize = 0;
    while i < ps.len()
        invariant
            i <= ps@.len(),
            r@ =~= param_types(params_view(ps@)).take(i as int),
        decreases ps@.len() - i,
    {
        r.push(ps[i].ty);
        i = i + 1;
    }
    assert(param_types(params_view(ps@)).take(i as int) =~= param_types(params_view(ps@)));
    r
}

/// Lowers a defined function, continuing the data layout `data` / `off`
/// (see `spec_lower_fn`).
fn lower_fn(cx: &Vec<Sig>, f: &Function, data: Vec<DataSeg>, off: u32) -> (r: Result<
    (Body, Vec<DataSeg>, u32),
    CodegenError,
>)
    requires
        cx@.len() <= u32::MAX,
        flat_vkinds(param_types(f@.params)).len() <= u32::MAX,
    ensures
        match r {
            Ok((b, d, o)) => spec_lower_fn(sigs_view(cx@), f@, data_view(data@), off) == Ok::<
                _,
                CodegenErrorV,
            >((b@, data_view(d@), o)),
            Err(err) => spec_lower_fn(sigs_view(cx@), f@, data_view(data@), off) == Err::<
                (BodyV, Seq<(u32, Seq<u8>)>, u32),
                _,
            >(err@),
        },
{
    let ghost pv = params_view(f.params@);
    let ghost ts = param_types(pv);
    let mut locals: Vec<Binding> = Vec::new();
    let mut next: u32 = 0;
    let mut i: usize = 0;
    assert(ts.take(0) =~= Seq::<Type>::empty());
    while i < f.params.len()
        invariant
            i <= f.params@.len(),
            pv == params_view(f.params@),
            ts == param_types(pv),
            ts.len() == f.params@.len(),
            flat_vkinds(ts).len() <= u32::MAX,
            next == flat_vkinds(ts.take(i as int)).len(),
            locals@.map_values(|b: Binding| b@) == param_bindings(pv, i as int),
            forall|j: int|
                0 <= j < locals@.len() ==> #[trigger] locals@[j].idx + vkinds(locals@[j].ty).len()
                    <= u32::MAX,
        decreases f.params@.len() - i,
    {
        proof {
            lemma_flat_take(ts, i as int);
            lemma_flat_prefix(ts, i + 1);
        }
        let ghost l0 = locals@.map_values(|b: Binding| b@);
        let ty = f.params[i].ty;
        locals.push(Binding { name: f.params[i].name.clone(), ty, idx: next });
        proof {
            assert(locals@.map_values(|b: Binding| b@) =~= l0.push(
                BindingV { name: pv[i as int].name, ty: pv[i as int].ty, idx: next as int },
            ));
        }
        next = next + type_slots(ty);
        i = i + 1;
    }
    assert(ts.take(i as int) =~= ts);
    let mut st = LowerState { locals, decls: Vec::new(), nparams: next, data, off };
    let ghost st0 = st@;
    assert(st0.locals == param_bindings(pv, pv.len() as int));
    let code = match lower_block(cx, &f.body, &mut st, f.ret_ty) {
        Err(err) => {
            return Err(err);
        },
        Ok(c) => c,
    };
    if f.ret_ty != Type::Void && !block_returns_exec(&f.body) {
        return Err(CodegenError::MissingReturn);
    }
    let mut code = code;
    let ghost c0 = code@;
    if f.ret_ty == Type::Void {
        code.push(Instr::End);
        assert(code@ =~= c0 + seq![Instr::End]);
    } else {
        code.push(Instr::Unreachable);
        code.push(Instr::End);
        assert(code@ =~= c0 + seq![Instr::Unreachable, Instr::End]);
    }
    let mut groups: Vec<(u32, ValKind)> = Vec::new();
    let mut j: usize = 0;
    while j < st.decls.len()
        invariant
            j <= st.decls@.len(),
            groups@ =~= local_groups(st.decls@).take(j as int),
        decreases st.decls@.len() - j,
    {
        groups.push((1u32, st.decls[j]));
        j = j + 1;
    }
    assert(local_groups(st.decls@).take(j as int) =~= local_groups(st.decls@));
    let LowerState { locals: _, decls: _, nparams: _, data, off } = st;
    Ok((Body { locals: groups, code }, data, off))
}


pub open spec fn items_view(items: Seq<Item>) -> Seq<ItemV> {
    items.map_values(|it: Item| it@)
}

/// Position of the first `export fn main` item.
fn find_main_exec(items: &Vec<Item>) -> (r: Option<usize>)
    ensures
        match r {
            Some(k) => k < items@.len() && (match items@[k as int] {
                Item::ExportFn(f) => find_main(items_view(items@), 0) == Some(f@),
                _ => false,
            }),
            None => find_main(items_view(items@), 0) is None,
        },
{
    let ghost iv = items_view(items@);
    let main_name = "main".to_owned();
    let mut i: usize = 0;
    while i < items.len()
        invariant
            i <= items@.len(),
            iv == items_view(items@),
            main_name@ == "main"@,
            find_main(iv, 0) == find_main(iv, i as int),
        decreases items@.len() - i,
    {
        match &items[i] {
            Item::ExportFn(f) => {
                if f.name == main_name {
                    return Some(i);
                }
            },
            _ => {},
        }
        i = i + 1;
    }
    None
}

fn flat_vkinds_exec(ts: &Vec<Type>) -> (r: Vec<ValKind>)
    ensures
        r@ == flat_vkinds(ts@),
{
    let mut r: Vec<ValKind> = Vec::new();
    let mut i: usize = 0;
    while i < ts.len()
        invariant
            i <= ts@.len(),
            r@ == flat_vkinds(ts@.take(i as int)),
        decreases ts@.len() - i,
    {
        assert(ts@.take(i + 1).drop_last() =~= ts@.take(i as int));
        push_vkinds(&mut r, ts[i]);
        i = i + 1;
    }
    assert(ts@.take(i as int) =~= ts@);
    r
}

fn vkinds_exec(t: Type) -> (r: Vec<ValKind>)
    ensures
        r@ == vkinds(t),
{
    let mut r: Vec<ValKind> = Vec::new();
    push_vkinds(&mut r, t);
    assert(r@ =~= vkinds(t));
    r
}

/// The wasm type of a signature (see `lower_sig`).
fn lower_sig_exec(sig: &Sig) -> (r: Option<FuncType>)
    ensures
        match r {
            Some(t) => lower_sig(sig@) == Some(t@),
            None => lower_sig(sig@) is None,
        },
{
    let mut i: usize = 0;
    while i < sig.params.len()
        invariant
            i <= sig.params@.len(),
            forall|k: int| 0 <= k < i ==> storable(#[trigger] sig.params@[k]),
        decreases sig.params@.len() - i,
    {
        if !is_storable(sig.params[i]) {
            return None;
        }
        i = i + 1;
    }
    if sig.ret == Type::JsObj {
        return None;
    }
    let params = flat_vkinds_exec(&sig.params);
    if params.len() > 0xffff_ffff {
        return None;
    }
    Some(FuncType { params, results: vkinds_exec(sig.ret) })
}

fn import_sig_exec(f: &ImportFn) -> (r: Sig)
    ensures
        r@ == import_sig(f@),
{
    Sig { name: f.name.clone(), params: param_types_exec(&f.params), ret: f.ret_ty }
}

fn fn_sig_exec(f: &Function) -> (r: Sig)
    ensures
        r@ == fn_sig(f@),
{
    Sig { name: f.name.clone(), params: param_types_exec(&f.params), ret: f.ret_ty }
}

proof fn lemma_imports_of_prefix(fs: Seq<ImportFnV>, x: ImportFnV, k: int)
    requires
        k <= fs.len(),
    ensures
        imports_of(fs.push(x), k) == imports_of(fs, k),
    decreases k,
{
    if k > 0 {
        lemma_imports_of_prefix(fs, x, k - 1);
    }
}

/// Puts `bs` in front of the bodies of a successful result.
pub open spec fn prefix_bodies(
    bs: Seq<BodyV>,
    r: LRes<(Seq<BodyV>, Seq<(u32, Seq<u8>)>)>,
) -> LRes<(Seq<BodyV>, Seq<(u32, Seq<u8>)>)> {
    match r {
        Ok((x, d)) => Ok((bs + x, d)),
        Err(e) => Err(e),
    }
}


pub open spec fn item_def_view(it: ItemV) -> (bool, FunctionV) {
    match it {
        ItemV::ExportFn(f) => (true, f),
        ItemV::Fn(f) => (false, f),
        ItemV::ImportFn(f) => (
            false,
            FunctionV { name: f.name, params: f.params, ret_ty: f.ret_ty, body: Seq::empty() },
        ),
    }
}

pub open spec fn imports_view(v: Seq<Import>) -> Seq<ImportV> {
    v.map_values(|i: Import| i@)
}

pub open spec fn exports_view(v: Seq<Export>) -> Seq<ExportV> {
    v.map_values(|e: Export| e@)
}

pub open spec fn bodies_view(v: Seq<Body>) -> Seq<BodyV> {
    v.map_values(|b: Body| b@)
}

pub open spec fn types_view(v: Seq<FuncType>) -> Seq<(Seq<ValKind>, Seq<ValKind>)> {
    v.map_values(|t: FuncType| t@)
}

proof fn lemma_prefix_bodies_step(
    bs: Seq<BodyV>,
    b: BodyV,
    r: LRes<(Seq<BodyV>, Seq<(u32, Seq<u8>)>)>,
)
    ensures
        prefix_bodies(bs.push(b), r) == prefix_bodies(bs, prefix_bodies(seq![b], r)),
{
    match r {
        Ok((x, d)) => {
            assert(bs.push(b) + x =~= bs + (seq![b] + x));
        },
        Err(_) => {},
    }
}

/// Signatures of `print` and the `import fn` items, with the imports.
fn collect_imports(items: &Vec<Item>) -> (r: (Vec<Sig>, Vec<Import>))
    ensures
        sigs_view(r.0@) == seq![print_sig()] + import_sigs(imported(items_view(items@))),
        imports_view(r.1@) == seq![print_import()] + imports_of(
            imported(items_view(items@)),
            imported(items_view(items@)).len() as int,
        ),
{
    let ghost iv = items_view(items@);
    let mut cx: Vec<Sig> = Vec::new();
    let print_params = vec![Type::String];
    assert(print_params@ =~= seq![Type::String]);
    cx.push(Sig { name: String::new(), params: print_params, ret: Type::Void });
    let mut imports: Vec<Import> = Vec::new();
    proof {
        reveal_strlit("env");
        reveal_strlit("print");
    }
    imports.push(Import { module: "env".to_owned(), name: "print".to_owned(), ty: 0 });
    proof {
        assert(iv.take(0) =~= Seq::<ItemV>::empty());
        assert(imported(iv.take(0)) =~= Seq::<ImportFnV>::empty());
        assert(sigs_view(cx@)[0] == print_sig());
        assert(sigs_view(cx@) =~= seq![print_sig()] + import_sigs(imported(iv.take(0))));
        assert(imports_view(imports@) =~= seq![print_import()] + imports_of(
            imported(iv.take(0)),
            0,
        ));
    }
    let mut i: usize = 0;
    while i < items.len()
        invariant
            i <= items@.len(),
            iv == items_view(items@),
            sigs_view(cx@) == seq![print_sig()] + import_sigs(imported(iv.take(i as int))),
            imports_view(imports@) == seq![print_import()] + imports_of(
                imported(iv.take(i as int)),
                imported(iv.take(i as int)).len() as int,
            ),
        decreases items@.len() - i,
    {
        let ghost fs = imported(iv.take(i as int));
        let ghost c0 = sigs_view(cx@);
        let ghost m0 = imports_view(imports@);
        assert(iv.take(i + 1).drop_last() =~= iv.take(i as int));
        match &items[i] {
            Item::ImportFn(f) => {
                let ty = #[verifier::truncate] (cx.len() as u32);
                proof {
                    reveal_strlit("env");
                }
                imports.push(Import { module: "env".to_owned(), name: f.name.clone(), ty });
                cx.push(import_sig_exec(f));
                proof {
                    assert(imported(iv.take(i + 1)) == fs.push(f@));
                    assert(import_sigs(fs.push(f@)) =~= import_sigs(fs).push(import_sig(f@)));
                    assert(sigs_view(cx@) =~= c0.push(import_sig(f@)));
                    lemma_imports_of_prefix(fs, f@, fs.len() as int);
                    assert(imports_view(imports@) =~= m0.push(
                        ImportV { module: "env"@, name: f@.name, ty },
                    ));
                }
            },
            _ => {},
        }
        i = i + 1;
    }
    assert(iv.take(i as int) =~= iv);
    (cx, imports)
}

/// Positions of the `fn` / `export fn` items, with their signatures
/// appended to `cx`.
fn collect_defs(items: &Vec<Item>, cx: &mut Vec<Sig>) -> (r: Vec<usize>)
    ensures
        sigs_view(final(cx)@) == sigs_view(old(cx)@) + def_sigs(defined(items_view(items@))),
        r@.len() == defined(items_view(items@)).len(),
        forall|j: int|
            #![trigger r@[j]]
            0 <= j < r@.len() ==> r@[j] < items@.len() && (items@[r@[j] as int] is ExportFn
                || items@[r@[j] as int] is Fn) && item_def_view(items_view(items@)[r@[j] as int])
                == defined(items_view(items@))[j],
{
    let ghost iv = items_view(items@);
    let ghost c_in = sigs_view(cx@);
    let mut defs: Vec<usize> = Vec::new();
    let mut i: usize = 0;
    assert(sigs_view(cx@) =~= c_in + def_sigs(defined(iv.take(0))));
    while i < items.len()
        invariant
            i <= items@.len(),
            iv == items_view(items@),
            sigs_view(cx@) == c_in + def_sigs(defined(iv.take(i as int))),
            defs@.len() == defined(iv.take(i as int)).len(),
            forall|j: int|
                #![trigger defs@[j]]
                0 <= j < defs@.len() ==> defs@[j] < i && (items@[defs@[j] as int] is ExportFn
                    || items@[defs@[j] as int] is Fn) && item_def_view(iv[defs@[j] as int])
                    == defined(iv.take(i as int))[j],
        decreases items@.len() - i,
    {
        let ghost ds = defined(iv.take(i as int));
        let ghost c0 = sigs_view(cx@);
        assert(iv.take(i + 1).drop_last() =~= iv.take(i as int));
        match &items[i] {
            Item::ExportFn(f) => {
                cx.push(fn_sig_exec(f));
                defs.push(i);
                proof {
                    assert(defined(iv.take(i + 1)) == ds.push((true, f@)));
                    assert(def_sigs(ds.push((true, f@))) =~= def_sigs(ds).push(fn_sig(f@)));
                    assert(sigs_view(cx@) =~= c0.push(fn_sig(f@)));
                }
            },
            Item::Fn(f) => {
                cx.push(fn_sig_exec(f));
                defs.push(i);
                proof {
                    assert(defined(iv.take(i + 1)) == ds.push((false, f@)));
                    assert(def_sigs(ds.push((false, f@))) =~= def_sigs(ds).push(fn_sig(f@)));
                    assert(sigs_view(cx@) =~= c0.push(fn_sig(f@)));
                }
            },
            _ => {},
        }
        i = i + 1;
    }
    assert(iv.take(i as int) =~= iv);
    defs
}

/// The wasm types of all signatures (see `lower_types`).
fn lower_types_exec(cx: &Vec<Sig>) -> (r: Option<Vec<FuncType>>)
    ensures
        match r {
            Some(t) => lower_types(sigs_view(cx@)) == Some(types_view(t@)),
            None => lower_types(sigs_view(cx@)) is None,
        },
{
    let ghost cv = sigs_view(cx@);
    let mut types: Vec<FuncType> = Vec::new();
    let mut k: usize = 0;
    while k < cx.len()
        invariant
            k <= cx@.len(),
            cv == sigs_view(cx@),
            types@.len() == k,
            forall|j: int| 0 <= j < k ==> lower_sig(#[trigger] cv[j]) == Some(types@[j]@),
        decreases cx@.len() - k,
    {
        match lower_sig_exec(&cx[k]) {
            None => {
                assert(!(lower_sig(cv[k as int]) is Some));
                return None;
            },
            Some(t) => {
                types.push(t);
            },
        }
        k = k + 1;
    }
    assert(forall|j: int| 0 <= j < cv.len() ==> #[trigger] lower_sig(cv[j]) is Some);
    assert(types_view(types@) =~= cv.map_values(|s: SigV| lower_sig(s).unwrap()));
    Some(types)
}


/// Lowers a program to a module description (see `spec_lower_module`).
pub fn lower_module(p: &Program) -> (r: Result<ModuleIr, CodegenError>)
    ensures
        match r {
            Ok(m) => spec_lower_module(p@) == Ok::<_, CodegenErrorV>(m@),
            Err(err) => spec_lower_module(p@) == Err::<ModuleIrV, _>(err@),
        },
{
    let ghost iv = items_view(p.items@);
    assert(p@.items =~= iv);
    let mi = match find_main_exec(&p.items) {
        None => {
            return Err(CodegenError::MissingMain);
        },
        Some(k) => k,
    };
    match &p.items[mi] {
        Item::ExportFn(f) => {
            if f.params.len() != 0 || f.ret_ty != Type::I32 {
                return Err(CodegenError::UnsupportedType);
            }
        },
        _ => {
            return Err(CodegenError::MissingMain);
        },
    }
    let (mut cx, imports) = collect_imports(&p.items);
    let ghost nimp = cx@.len();
    let defs = collect_defs(&p.items, &mut cx);
    let ghost cv = sigs_view(cx@);
    let ghost dv = defined(iv);
    let ghost imps = imported(iv);
    assert(cv == module_sigs(iv));
    if cx.len() >= 0xffff_ffff {
        return Err(CodegenError::UnsupportedType);
    }
    let types = match lower_types_exec(&cx) {
        None => {
            return Err(CodegenError::UnsupportedType);
        },
        Some(t) => t,
    };
    let base: usize = cx.len() - defs.len();
    assert(base == 1 + imps.len());
    // Function bodies, in the order of the items.
    let mut bodies: Vec<Body> = Vec::new();
    let mut data: Vec<DataSeg> = Vec::new();
    let mut off: u32 = 0;
    let mut j: usize = 0;
    proof {
        assert(data_view(data@) =~= Seq::<(u32, Seq<u8>)>::empty());
        match spec_lower_fns(cv, dv, 0, Seq::empty(), 0) {
            Ok((x, d)) => {
                assert(bodies_view(bodies@) + x =~= x);
            },
            Err(_) => {},
        }
    }
    while j < defs.len()
        invariant
            j <= defs@.len(),
            defs@.len() == dv.len(),
            cv == sigs_view(cx@),
            cx@.len() <= u32::MAX,
            base == cx@.len() - defs@.len(),
            cv == seq![print_sig()] + import_sigs(imps) + def_sigs(dv),
            lower_types(cv) is Some,
            forall|k: int|
                #![trigger defs@[k]]
                0 <= k < defs@.len() ==> defs@[k] < p.items@.len() && (p.items@[defs@[k] as int] is ExportFn
                    || p.items@[defs@[k] as int] is Fn) && item_def_view(iv[defs@[k] as int])
                    == dv[k],
            iv == items_view(p.items@),
            spec_lower_fns(cv, dv, 0, Seq::empty(), 0) is Err ==> spec_lower_module(p@) == Err::<
                ModuleIrV,
                CodegenErrorV,
            >(spec_lower_fns(cv, dv, 0, Seq::empty(), 0)->Err_0),
            spec_lower_fns(cv, dv, 0, Seq::empty(), 0) == prefix_bodies(
                bodies_view(bodies@),
                spec_lower_fns(cv, dv, j as int, data_view(data@), off),
            ),
        decreases defs@.len() - j,
    {
        let idx = defs[j];
        let f = match &p.items[idx] {
            Item::ExportFn(f) => f,
            Item::Fn(f) => f,
            _ => {
                return Err(CodegenError::MissingMain);
            },
        };
        proof {
            assert(dv[j as int].1 == f@);
            assert(cv[base + j] == def_sigs(dv)[j as int]);
            assert(lower_sig(cv[base + j]) is Some);
            assert(fn_sig(f@).params == param_types(f@.params));
        }
        let ghost d0 = data_view(data@);
        let ghost b0 = bodies_view(bodies@);
        match lower_fn(&cx, f, data, off) {
            Err(err) => {
                assert(spec_lower_fns(cv, dv, j as int, d0, off) == Err::<
                    (Seq<BodyV>, Seq<(u32, Seq<u8>)>),
                    CodegenErrorV,
                >(err@));
                return Err(err);
            },
            Ok((b, d, o)) => {
                let ghost bv = b@;
                bodies.push(b);
                data = d;
                off = o;
                proof {
                    assert(bodies_view(bodies@) =~= b0.push(bv));
                    lemma_prefix_bodies_step(
                        b0,
                        bv,
                        spec_lower_fns(cv, dv, j + 1, data_view(data@), off),
                    );
                }
            },
        }
        j = j + 1;
    }
    proof {
        match spec_lower_fns(cv, dv, 0, Seq::empty(), 0) {
            Ok((x, d)) => {
                assert(bodies_view(bodies@) + Seq::<BodyV>::empty() =~= bodies_view(bodies@));
            },
            Err(_) => {},
        }
    }
    // Exports: the exported functions, then the memory.
    let mut exports: Vec<Export> = Vec::new();
    let mut funcs: Vec<u32> = Vec::new();
    j = 0;
    while j < defs.len()
        invariant
            j <= defs@.len(),
            defs@.len() == dv.len(),
            cx@.len() <= u32::MAX,
            base == cx@.len() - defs@.len(),
            forall|k: int|
                #![trigger defs@[k]]
                0 <= k < defs@.len() ==> defs@[k] < p.items@.len() && (p.items@[defs@[k] as int] is ExportFn
                    || p.items@[defs@[k] as int] is Fn) && item_def_view(iv[defs@[k] as int])
                    == dv[k],
            iv == items_view(p.items@),
            exports_view(exports@) == exports_of(dv, j as int, base as int),
            funcs@ =~= func_types(base as int, j as int),
        decreases defs@.len() - j,
    {
        let idx = defs[j];
        let ghost e0 = exports_view(exports@);
        match &p.items[idx] {
            Item::ExportFn(f) => {
                exports.push(
                    Export { name: f.name.clone(), kind: ExportKind::Func, index: (base + j) as u32 },
                );
                proof {
                    assert(exports_view(exports@) =~= e0.push(
                        ExportV { name: f@.name, kind: ExportKind::Func, index: (base + j) as u32 },
                    ));
                }
            },
            _ => {},
        }
        funcs.push((base + j) as u32);
        j = j + 1;
    }
    // `__alloc`, after the defined functions.
    let ai = cx.len() as u32;
    let ghost e1 = exports_view(exports@);
    proof {
        reveal_strlit("memory");
        reveal_strlit("__alloc");
    }
    exports.push(Export { name: "__alloc".to_owned(), kind: ExportKind::Func, index: ai });
    exports.push(Export { name: "memory".to_owned(), kind: ExportKind::Memory, index: 0 });
    assert(exports_view(exports@) =~= e1.push(alloc_export(ai)).push(memory_export()));
    let ghost f1 = funcs@;
    funcs.push(ai);
    let mut types = types;
    let ghost t1 = types_view(types@);
    let at = FuncType { params: vec![ValKind::I32], results: vec![ValKind::I32] };
    assert(at@ =~= alloc_type());
    types.push(at);
    assert(types_view(types@) =~= t1.push(alloc_type()));
    let h = heap_cell_exec(&data);
    let ghost b1 = bodies_view(bodies@);
    let ab = Body {
        locals: vec![(1u32, ValKind::I32)],
        code: vec![
            Instr::I32Const(h as i32),
            Instr::I32Load,
            Instr::LocalTee(1),
            Instr::I32Eqz,
            Instr::If,
            Instr::I32Const((h + 4) as i32),
            Instr::LocalSet(1),
            Instr::End,
            Instr::I32Const(h as i32),
            Instr::LocalGet(1),
            Instr::LocalGet(0),
            Instr::I32Add,
            Instr::I32Store,
            Instr::LocalGet(1),
            Instr::End,
        ],
    };
    assert(ab@.locals =~= alloc_body(h).locals);
    assert(ab@.code =~= alloc_body(h).code);
    bodies.push(ab);
    assert(bodies_view(bodies@) =~= b1.push(alloc_body(h)));
    let m = ModuleIr { types, imports, funcs, memory_pages: 1, exports, bodies, data };
    proof {
        assert(m@.types == types_view(m.types@));
        assert(m@.imports =~= imports_view(m.imports@));
        assert(m@.exports =~= exports_view(m.exports@));
        assert(m@.bodies =~= bodies_view(m.bodies@));
        assert(m@.funcs =~= func_types(base as int, defs@.len() as int).push(ai));
    }
    Ok(m)
}

/// The heap cell for the data segments `data` (see `heap_cell`).
fn heap_cell_exec(data: &Vec<DataSeg>) -> (r: u32)
    ensures
        r == heap_cell(data_view(data@)),
        r <= 0xFFFF_FFF0,
{
    let ghost dv = data_view(data@);
    if data.len() == 0 {
        return 0;
    }
    let last = &data[data.len() - 1];
    assert(dv.last() == (last.offset, last.bytes@));
    let l: u64 = last.bytes.len() as u64;
    if l > 0xFFFF_FFFF {
        return 0xFFFF_FFF0;
    }
    let e: u64 = last.offset as u64 + l;
    if e <= 0xFFFF_FFF0 {
        ((e + 3) / 4 * 4) as u32
    } else {
        0xFFFF_FFF0
    }
}


/// The bytes a program compiles to, or the first error; a module too large
/// for the encoder is `UnsupportedType`.
pub open spec fn spec_emit(p: ProgramV) -> Result<Seq<u8>, CodegenErrorV> {
    match spec_lower_module(p) {
        Err(e) => Err(e),
        Ok(m) => if module_fits(m) {
            Ok(module_bytes(m))
        } else {
            Err(CodegenErrorV::UnsupportedType)
        },
    }
}

/// Compiles a program to a WebAssembly module (see `spec_emit`).
pub fn emit_module(program: &Program) -> (r: Result<Vec<u8>, CodegenError>)
    ensures
        match r {
            Ok(b) => spec_emit(program@) == Ok::<_, CodegenErrorV>(b@),
            Err(e) => spec_emit(program@) == Err::<Seq<u8>, _>(e@),
        },
{
    let m = lower_module(program)?;
    match encode_module(&m) {
        Some(b) => Ok(b),
        None => Err(CodegenError::UnsupportedType),
    }
}

} // verus!
