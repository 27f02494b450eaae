//! Code generation for the V-like language.
//!
//! `compile` adds a `_start` function when the program has none, folds the
//! constants in order, turns small non-exported helpers into inline
//! expansions, keeps the exported functions and those reachable from the
//! entry points, gives each function type one shared entry, and emits each
//! body followed by a peephole pass.
use vstd::prelude::*;
use crate::parser::str_is;
use crate::vish::parse::{
    BinOp, ConstDecl, ConstDeclV, Expr, ExprV, FnDecl, FnDeclV, Program, ProgramV, Stmt, StmtV,
    TypeName, consts_view, expr_view, exprs_view, fns_view, lemma_exprs_view, lemma_stmts_view,
    params_view, stmt_view, stmts_view,
};
use crate::wasm::{
    Body, BodyV, DataSeg, Export, ExportKind, ExportV, FuncType, Import, ImportV, Instr, ModuleIr,
    ModuleIrV, ValKind, data_view, encode_module, module_bytes, module_fits,
};

verus! {

#[derive(Debug, Clone, Copy)]
pub enum Target {
    Web,
    Wasi,
}

/// Why a program does not compile.
#[derive(Debug)]
pub enum GenError {
    /// A constant whose value is not an expression of numbers, earlier
    /// constants and operators.
    ConstNotFoldable(String),
    /// An `@inline` function that is exported.
    InlineExported(String),
    /// An `@inline` function of neither inlineable shape.
    NotInlineable(String),
    /// No `main` to export for the web target.
    MissingMain,
    /// No `_start` to export for the WASI target.
    MissingStart,
    /// A variable that is neither a constant nor a local.
    UndefinedVar(String),
    /// An assignment to a name that is not a local.
    UndefAssign(String),
    /// A call of an inline helper with the wrong number of arguments.
    ArityMismatch(String),
    /// `load_i32` or `store_i32` with the wrong number of arguments.
    BuiltinArity(String),
    /// A call of a function that is not emitted.
    UnknownFn(String),
    /// Inline helpers that expand into each other without end.
    InlineTooDeep(String),
    /// A module too large for the encoder.
    TooLarge,
}

pub enum GenErrorV {
    ConstNotFoldable(Seq<char>),
    InlineExported(Seq<char>),
    NotInlineable(Seq<char>),
    MissingMain,
    MissingStart,
    UndefinedVar(Seq<char>),
    UndefAssign(Seq<char>),
    ArityMismatch(Seq<char>),
    BuiltinArity(Seq<char>),
    UnknownFn(Seq<char>),
    InlineTooDeep(Seq<char>),
    TooLarge,
}

impl View for GenError {
    type V = GenErrorV;

    open spec fn view(&self) -> GenErrorV {
        match self {
            GenError::ConstNotFoldable(s) => GenErrorV::ConstNotFoldable(s@),
            GenError::InlineExported(s) => GenErrorV::InlineExported(s@),
            GenError::NotInlineable(s) => GenErrorV::NotInlineable(s@),
            GenError::MissingMain => GenErrorV::MissingMain,
            GenError::MissingStart => GenErrorV::MissingStart,
            GenError::UndefinedVar(s) => GenErrorV::UndefinedVar(s@),
            GenError::UndefAssign(s) => GenErrorV::UndefAssign(s@),
            GenError::ArityMismatch(s) => GenErrorV::ArityMismatch(s@),
            GenError::BuiltinArity(s) => GenErrorV::BuiltinArity(s@),
            GenError::UnknownFn(s) => GenErrorV::UnknownFn(s@),
            GenError::InlineTooDeep(s) => GenErrorV::InlineTooDeep(s@),
            GenError::TooLarge => GenErrorV::TooLarge,
        }
    }
}

pub type GRes<T> = Result<T, GenErrorV>;

// ---------------------------------------------------------------------------
// Names bound to values: the last binding of a name wins
// ---------------------------------------------------------------------------

pub open spec fn lookup<V>(m: Seq<(Seq<char>, V)>, name: Seq<char>) -> Option<V>
    decreases m.len(),
{
    if m.len() == 0 {
        None
    } else if m.last().0 == name {
        Some(m.last().1)
    } else {
        lookup(m.drop_last(), name)
    }
}

proof fn lemma_lookup_take<V>(m: Seq<(Seq<char>, V)>, k: int)
    requires
        0 < k <= m.len(),
    ensures
        m.take(k).last() == m[k - 1],
        m.take(k).drop_last() =~= m.take(k - 1),
{
}

/// Position of the binding of `name` that `lookup` finds.
fn find_last<V>(m: &Vec<(String, V)>, name: &String) -> (r: Option<usize>)
    ensures
        match r {
            Some(k) => k < m@.len() && lookup(names_view(m@), name@) == Some(m@[k as int].1),
            None => lookup(names_view(m@), name@) is None,
        },
{
    let ghost mv = names_view(m@);
    let mut k = m.len();
    proof {
        assert(mv.take(k as int) =~= mv);
    }
    while k > 0
        invariant
            k <= m@.len(),
            mv == names_view(m@),
            lookup(mv, name@) == lookup(mv.take(k as int), name@),
        decreases k,
    {
        proof {
            lemma_lookup_take(mv, k as int);
        }
        if m[k - 1].0 == *name {
            return Some(k - 1);
        }
        k = k - 1;
    }
    None
}

pub open spec fn names_view<V>(m: Seq<(String, V)>) -> Seq<(Seq<char>, V)> {
    m.map_values(|p: (String, V)| (p.0@, p.1))
}

// ---------------------------------------------------------------------------
// `_start` and constants
// ---------------------------------------------------------------------------

pub open spec fn start_fn() -> FnDeclV {
    FnDeclV {
        exported: false,
        inline: false,
        name: "_start"@,
        params: Seq::empty(),
        ret: TypeName::Void,
        body: seq![
            StmtV::Expr(
                ExprV::Call { name: "store_i32"@, args: seq![ExprV::Num(0), ExprV::Num(1024)] },
            ),
            StmtV::Return(None),
        ],
    }
}

/// The program with a `_start` function put first, where it has none.
pub open spec fn with_start(p: ProgramV) -> ProgramV {
    if exists|k: int| 0 <= k < p.fns.len() && (#[trigger] p.fns[k]).name == "_start"@ {
        p
    } else {
        ProgramV { consts: p.consts, fns: seq![start_fn()] + p.fns }
    }
}

pub open spec fn b2i(b: bool) -> i32 {
    if b {
        1
    } else {
        0
    }
}

/// `a op b` on `i32`: arithmetic wraps, shifts take the count modulo 32
/// (`>>` keeps the sign), comparisons give 1 or 0.
pub open spec fn apply_op(op: BinOp, a: i32, b: i32) -> i32 {
    match op {
        BinOp::Add => a.wrapping_add(b),
        BinOp::Sub => a.wrapping_sub(b),
        BinOp::Mul => a.wrapping_mul(b),
        BinOp::And => a & b,
        BinOp::Or => a | b,
        BinOp::Xor => a ^ b,
        BinOp::Shl => a.wrapping_shl((b & 31) as u32),
        BinOp::Shr => a >> ((b & 31) as u32),
        BinOp::Eq => b2i(a == b),
        BinOp::Ne => b2i(a != b),
        BinOp::Lt => b2i(a < b),
        BinOp::Le => b2i(a <= b),
        BinOp::Gt => b2i(a > b),
        BinOp::Ge => b2i(a >= b),
    }
}

/// The value of a constant expression over the constants `env`.
pub open spec fn fold_const_spec(e: ExprV, env: Seq<(Seq<char>, i32)>) -> Option<i32>
    decreases e,
{
    match e {
        ExprV::Num(n) => Some(n),
        ExprV::Var(s) => lookup(env, s),
        ExprV::Call { .. } => None,
        ExprV::Bin { op, l, r } => match fold_const_spec(*l, env) {
            None => None,
            Some(a) => match fold_const_spec(*r, env) {
                None => None,
                Some(b) => Some(apply_op(op, a, b)),
            },
        },
    }
}

/// The constants `cs[k..]` folded in order after `env`.
pub open spec fn fold_consts(cs: Seq<ConstDeclV>, k: int, env: Seq<(Seq<char>, i32)>) -> GRes<
    Seq<(Seq<char>, i32)>,
>
    decreases cs.len() - k,
{
    if k < 0 || k >= cs.len() {
        Ok(env)
    } else {
        match fold_const_spec(cs[k].expr, env) {
            None => Err(GenErrorV::ConstNotFoldable(cs[k].name)),
            Some(v) => fold_consts(cs, k + 1, env.push((cs[k].name, v))),
        }
    }
}

// ---------------------------------------------------------------------------
// Inline helpers
// ---------------------------------------------------------------------------

/// Whether a body is a single `return <expr>;`.
pub open spec fn is_return_expr(body: Seq<StmtV>) -> bool {
    body.len() == 1 && body[0] matches StmtV::Return(Some(_))
}

/// Whether a body is one or more expression statements.
pub open spec fn is_expr_list(body: Seq<StmtV>) -> bool {
    body.len() > 0 && forall|k: int| 0 <= k < body.len() ==> (#[trigger] body[k]) is Expr
}

/// Whether a function is an entry point (`main` on the web, `_start`
/// under WASI), which is never expanded as a helper.
pub open spec fn is_entry(name: Seq<char>) -> bool {
    name == "main"@ || name == "_start"@
}

/// Helpers expanded in expressions (`imap`) and in statements (`ivoid`),
/// each a name with the position of its function; `fns[k..]` remain.
pub open spec fn classify(
    fns: Seq<FnDeclV>,
    k: int,
    imap: Seq<(Seq<char>, int)>,
    ivoid: Seq<(Seq<char>, int)>,
) -> GRes<(Seq<(Seq<char>, int)>, Seq<(Seq<char>, int)>)>
    decreases fns.len() - k,
{
    if k < 0 || k >= fns.len() {
        Ok((imap, ivoid))
    } else {
        let f = fns[k];
        if f.inline && f.exported {
            Err(GenErrorV::InlineExported(f.name))
        } else if !f.exported && !is_entry(f.name) && f.ret == TypeName::I32 && is_return_expr(
            f.body,
        ) {
            classify(fns, k + 1, imap.push((f.name, k)), ivoid)
        } else if !f.exported && !is_entry(f.name) && f.ret == TypeName::Void && is_expr_list(
            f.body,
        ) {
            classify(fns, k + 1, imap, ivoid.push((f.name, k)))
        } else if f.inline {
            Err(GenErrorV::NotInlineable(f.name))
        } else {
            classify(fns, k + 1, imap, ivoid)
        }
    }
}

/// Positions of the functions that are not inline helpers (by name).
pub open spec fn candidates(
    fns: Seq<FnDeclV>,
    imap: Seq<(Seq<char>, int)>,
    ivoid: Seq<(Seq<char>, int)>,
    k: int,
) -> Seq<int>
    decreases k,
{
    if k <= 0 {
        Seq::empty()
    } else {
        let rest = candidates(fns, imap, ivoid, k - 1);
        let f = fns[k - 1];
        if lookup(imap, f.name) is None && lookup(ivoid, f.name) is None {
            rest.push(k - 1)
        } else {
            rest
        }
    }
}


/// The return expression of the helper at `k`.
pub open spec fn helper_body(fns: Seq<FnDeclV>, k: int) -> ExprV {
    match fns[k].body[0] {
        StmtV::Return(Some(e)) => e,
        _ => ExprV::Num(0),
    }
}

pub open spec fn param_names(ps: Seq<(Seq<char>, TypeName)>) -> Seq<Seq<char>> {
    ps.map_values(|p: (Seq<char>, TypeName)| p.0)
}

/// The expressions of the expression statements of the helper at `k`.
pub open spec fn void_exprs(fns: Seq<FnDeclV>, k: int) -> Seq<ExprV> {
    fns[k].body.map_values(
        |s: StmtV|
            match s {
                StmtV::Expr(e) => e,
                _ => ExprV::Num(0),
            },
    )
}

/// What the code generator knows of the program: its functions, the
/// inline helpers, the folded constants and the index of each emitted
/// function.
pub struct Cx {
    pub fns: Seq<FnDeclV>,
    pub imap: Seq<(Seq<char>, int)>,
    pub ivoid: Seq<(Seq<char>, int)>,
    pub consts: Seq<(Seq<char>, i32)>,
    pub findex: Seq<(Seq<char>, u32)>,
}

pub open spec fn is_builtin(name: Seq<char>) -> bool {
    name == "load_i32"@ || name == "store_i32"@
}

// ---------------------------------------------------------------------------
// Reachability
// ---------------------------------------------------------------------------

/// Names of the functions an expression calls, looking through inline
/// helpers (up to `fuel` nested expansions); builtins are not functions.
pub open spec fn calls_expr(cx: Cx, e: ExprV, fuel: nat) -> Set<Seq<char>>
    decreases fuel, e,
{
    match e {
        ExprV::Num(_) => Set::empty(),
        ExprV::Var(_) => Set::empty(),
        ExprV::Bin { l, r, .. } => calls_expr(cx, *l, fuel) + calls_expr(cx, *r, fuel),
        ExprV::Call { name, args } => calls_args(cx, args, fuel) + if is_builtin(name) {
            Set::empty()
        } else {
            match lookup(cx.imap, name) {
                Some(k) => if fuel == 0 || !(0 <= k < cx.fns.len()) || cx.fns[k].body.len() == 0 {
                    Set::empty()
                } else {
                    calls_expr(cx, helper_body(cx.fns, k), (fuel - 1) as nat)
                },
                None => match lookup(cx.ivoid, name) {
                    Some(k) => if fuel == 0 || !(0 <= k < cx.fns.len()) {
                        Set::empty()
                    } else {
                        calls_args(cx, void_exprs(cx.fns, k), (fuel - 1) as nat)
                    },
                    None => set![name],
                },
            }
        },
    }
}

pub open spec fn calls_args(cx: Cx, args: Seq<ExprV>, fuel: nat) -> Set<Seq<char>>
    decreases fuel, args,
{
    if args.len() == 0 {
        Set::empty()
    } else {
        calls_args(cx, args.drop_last(), fuel) + calls_expr(cx, args.last(), fuel)
    }
}

pub open spec fn calls_stmt(cx: Cx, s: StmtV, fuel: nat) -> Set<Seq<char>>
    decreases s,
{
    match s {
        StmtV::Let { expr, .. } => calls_expr(cx, expr, fuel),
        StmtV::Assign { expr, .. } => calls_expr(cx, expr, fuel),
        StmtV::Expr(e) => calls_expr(cx, e, fuel),
        StmtV::Return(Some(e)) => calls_expr(cx, e, fuel),
        StmtV::Return(None) => Set::empty(),
        StmtV::If { cond, then_body, else_body } => calls_expr(cx, cond, fuel) + calls_stmts(
            cx,
            then_body,
            fuel,
        ) + calls_stmts(cx, else_body, fuel),
        StmtV::While { cond, body } => calls_expr(cx, cond, fuel) + calls_stmts(cx, body, fuel),
    }
}

pub open spec fn calls_stmts(cx: Cx, ss: Seq<StmtV>, fuel: nat) -> Set<Seq<char>>
    decreases ss,
{
    if ss.len() == 0 {
        Set::empty()
    } else {
        calls_stmts(cx, ss.drop_last(), fuel) + calls_stmt(cx, ss.last(), fuel)
    }
}

/// The candidate functions by name (the last of a name wins).
pub open spec fn fnmap_of(fns: Seq<FnDeclV>, cands: Seq<int>) -> Seq<(Seq<char>, int)> {
    cands.map_values(|k: int| (fns[k].name, k))
}

/// `live` and the functions that the functions of `live` call.
pub open spec fn expand(cx: Cx, fnmap: Seq<(Seq<char>, int)>, live: Set<Seq<char>>, fuel: nat) -> Set<
    Seq<char>,
> {
    live + Set::new(
        |n: Seq<char>|
            exists|x: Seq<char>|
                #![trigger live.contains(x), lookup(fnmap, x)]
                live.contains(x) && (match lookup(fnmap, x) {
                    Some(k) => 0 <= k < cx.fns.len() && calls_stmts(cx, cx.fns[k].body, fuel).contains(
                        n,
                    ),
                    None => false,
                }),
    )
}

/// The names reachable from `roots` in at most `n` call steps (with `n`
/// the number of candidate functions, every reachable candidate).
pub open spec fn live_iter(
    cx: Cx,
    fnmap: Seq<(Seq<char>, int)>,
    roots: Set<Seq<char>>,
    n: nat,
    fuel: nat,
) -> Set<Seq<char>>
    decreases n,
{
    if n == 0 {
        roots
    } else {
        expand(cx, fnmap, live_iter(cx, fnmap, roots, (n - 1) as nat, fuel), fuel)
    }
}

/// The exported candidates, then `_start` where asked for, or the entry
/// point of the target when there are none.
pub open spec fn roots_of(
    fns: Seq<FnDeclV>,
    cands: Seq<int>,
    fnmap: Seq<(Seq<char>, int)>,
    target: Target,
    export_start: bool,
) -> Set<Seq<char>> {
    let exported = Set::new(
        |n: Seq<char>| exists|j: int| 0 <= j < cands.len() && fns[#[trigger] cands[j]].exported && fns[cands[j]].name == n,
    );
    let r = if export_start && lookup(fnmap, "_start"@) is Some {
        exported.insert("_start"@)
    } else {
        exported
    };
    if r.is_empty() {
        match target {
            Target::Web => set!["main"@],
            Target::Wasi => set!["_start"@],
        }
    } else {
        r
    }
}

/// The candidates that are exported or live, in order.
pub open spec fn emitted_of(fns: Seq<FnDeclV>, cands: Seq<int>, live: Set<Seq<char>>, k: int) -> Seq<
    int,
>
    decreases k,
{
    if k <= 0 {
        Seq::empty()
    } else {
        let rest = emitted_of(fns, cands, live, k - 1);
        let f = fns[cands[k - 1]];
        if f.exported || live.contains(f.name) {
            rest.push(cands[k - 1])
        } else {
            rest
        }
    }
}

// ---------------------------------------------------------------------------
// Indices and types
// ---------------------------------------------------------------------------

/// Function indices by name: each name in turn is bound to the number of
/// distinct names bound before it.
pub open spec fn findex_of(names: Seq<Seq<char>>) -> (Seq<(Seq<char>, u32)>, nat)
    decreases names.len(),
{
    if names.len() == 0 {
        (Seq::empty(), 0)
    } else {
        let (m, d) = findex_of(names.drop_last());
        let n = names.last();
        if lookup(m, n) is Some {
            (m.push((n, d as u32)), d)
        } else {
            (m.push((n, d as u32)), d + 1)
        }
    }
}

pub open spec fn fn_names(fns: Seq<FnDeclV>, idx: Seq<int>) -> Seq<Seq<char>> {
    idx.map_values(|k: int| fns[k].name)
}

pub type TypeKey = (Seq<TypeName>, TypeName);

pub open spec fn key_of(f: FnDeclV) -> TypeKey {
    (f.params.map_values(|p: (Seq<char>, TypeName)| p.1), f.ret)
}

pub open spec fn index_of_key(keys: Seq<TypeKey>, key: TypeKey) -> int
    decreases keys.len(),
{
    if keys.len() == 0 {
        -1
    } else if index_of_key(keys.drop_last(), key) >= 0 {
        index_of_key(keys.drop_last(), key)
    } else if keys.last() == key {
        keys.len() - 1
    } else {
        -1
    }
}

/// The distinct function types in order of first use, and the type index
/// of each function.
pub open spec fn types_of(ks: Seq<TypeKey>) -> (Seq<TypeKey>, Seq<u32>)
    decreases ks.len(),
{
    if ks.len() == 0 {
        (Seq::empty(), Seq::empty())
    } else {
        let (keys, idx) = types_of(ks.drop_last());
        let k = ks.last();
        if index_of_key(keys, k) >= 0 {
            (keys, idx.push(index_of_key(keys, k) as u32))
        } else {
            (keys.push(k), idx.push(keys.len() as u32))
        }
    }
}

pub open spec fn i32_kinds(ts: Seq<TypeName>) -> Seq<ValKind>
    decreases ts.len(),
{
    if ts.len() == 0 {
        Seq::empty()
    } else if ts.last() == TypeName::I32 {
        i32_kinds(ts.drop_last()).push(ValKind::I32)
    } else {
        i32_kinds(ts.drop_last())
    }
}

/// A type key as a wasm function type: `void` parameters are dropped and a
/// `void` result is no result.
pub open spec fn wasm_type(k: TypeKey) -> (Seq<ValKind>, Seq<ValKind>) {
    (i32_kinds(k.0), i32_kinds(seq![k.1]))
}

pub open spec fn wasm_types(keys: Seq<TypeKey>) -> Seq<(Seq<ValKind>, Seq<ValKind>)> {
    keys.map_values(|k: TypeKey| wasm_type(k))
}

// ---------------------------------------------------------------------------
// Exports
// ---------------------------------------------------------------------------

pub open spec fn func_exports(fns: Seq<FnDeclV>, em: Seq<int>, findex: Seq<(Seq<char>, u32)>, k: int) -> Seq<
    ExportV,
>
    decreases k,
{
    if k <= 0 {
        Seq::empty()
    } else {
        let rest = func_exports(fns, em, findex, k - 1);
        let f = fns[em[k - 1]];
        if f.exported {
            rest.push(
                ExportV {
                    name: f.name,
                    kind: ExportKind::Func,
                    index: match lookup(findex, f.name) {
                        Some(i) => i,
                        None => 0,
                    },
                },
            )
        } else {
            rest
        }
    }
}

pub open spec fn fexport(name: Seq<char>, index: u32) -> ExportV {
    ExportV { name, kind: ExportKind::Func, index }
}

/// `memory`, the exported functions, `_start` where asked for and not
/// exported already, and the entry point of the target when nothing else
/// is exported.
pub open spec fn exports_spec(
    fns: Seq<FnDeclV>,
    em: Seq<int>,
    findex: Seq<(Seq<char>, u32)>,
    target: Target,
    export_start: bool,
) -> GRes<Seq<ExportV>> {
    let base = seq![ExportV { name: "memory"@, kind: ExportKind::Memory, index: 0 }] + func_exports(
        fns,
        em,
        findex,
        em.len() as int,
    );
    let start_exported = exists|j: int|
        0 <= j < em.len() && fns[#[trigger] em[j]].name == "_start"@ && fns[em[j]].exported;
    let with_start = if export_start && lookup(findex, "_start"@) is Some && !start_exported {
        base.push(fexport("_start"@, lookup(findex, "_start"@).unwrap()))
    } else {
        base
    };
    if with_start.len() == 1 {
        match target {
            Target::Web => match lookup(findex, "main"@) {
                Some(i) => Ok(with_start.push(fexport("main"@, i))),
                None => Err(GenErrorV::MissingMain),
            },
            Target::Wasi => match lookup(findex, "_start"@) {
                Some(i) => Ok(with_start.push(fexport("_start"@, i))),
                None => Err(GenErrorV::MissingStart),
            },
        }
    } else {
        Ok(with_start)
    }
}


// ---------------------------------------------------------------------------
// Code of the bodies
// ---------------------------------------------------------------------------

/// What a parameter of an expanded helper stands for: the code of its
/// argument, or the error emitting that argument gives.
pub type Env = Seq<(Seq<char>, GRes<Seq<Instr>>)>;

/// Parameter names bound to the code of the arguments, in order.
pub open spec fn bind_args(ps: Seq<Seq<char>>, rs: Seq<GRes<Seq<Instr>>>) -> Env {
    Seq::new(
        if ps.len() < rs.len() {
            ps.len()
        } else {
            rs.len()
        },
        |k: int| (ps[k], rs[k]),
    )
}

pub open spec fn binop_instr(op: BinOp) -> Instr {
    match op {
        BinOp::Add => Instr::I32Add,
        BinOp::Sub => Instr::I32Sub,
        BinOp::Mul => Instr::I32Mul,
        BinOp::And => Instr::I32And,
        BinOp::Or => Instr::I32Or,
        BinOp::Xor => Instr::I32Xor,
        BinOp::Shl => Instr::I32Shl,
        BinOp::Shr => Instr::I32ShrS,
        BinOp::Eq => Instr::I32Eq,
        BinOp::Ne => Instr::I32Ne,
        BinOp::Lt => Instr::I32LtS,
        BinOp::Le => Instr::I32LeS,
        BinOp::Gt => Instr::I32GtS,
        BinOp::Ge => Instr::I32GeS,
    }
}

/// The local variables of the function being emitted: each name with its
/// index (the last binding of a name wins), the next free index and the
/// number of locals declared after the parameters.
pub struct EStateV {
    pub locals: Seq<(Seq<char>, u32)>,
    pub next: nat,
    pub nlocals: nat,
}

/// The code of an expression in which the names bound in `env` are
/// parameters of an expanded helper (standing for the code of their
/// arguments); a call of an expression helper is expanded in place, its
/// body read with its parameters bound to the code of the arguments (at
/// most `fuel` expansions deep). This is the code of the helper's body with
/// the argument expressions put in for its parameters.
pub open spec fn emit_expr(cx: Cx, st: EStateV, env: Env, e: ExprV, fuel: nat) -> GRes<Seq<Instr>>
    decreases fuel, e,
{
    match e {
        ExprV::Num(n) => Ok(seq![Instr::I32Const(n)]),
        ExprV::Var(name) => match lookup(env, name) {
            Some(r) => r,
            None => match lookup(cx.consts, name) {
                Some(v) => Ok(seq![Instr::I32Const(v)]),
                None => match lookup(st.locals, name) {
                    Some(i) => Ok(seq![Instr::LocalGet(i)]),
                    None => Err(GenErrorV::UndefinedVar(name)),
                },
            },
        },
        ExprV::Bin { op, l, r } => match emit_expr(cx, st, env, *l, fuel) {
            Err(e) => Err(e),
            Ok(cl) => match emit_expr(cx, st, env, *r, fuel) {
                Err(e) => Err(e),
                Ok(cr) => Ok(cl + cr + seq![binop_instr(op)]),
            },
        },
        ExprV::Call { name, args } => match lookup(cx.imap, name) {
            Some(k) => if !(0 <= k < cx.fns.len()) || cx.fns[k].params.len() != args.len() {
                Err(GenErrorV::ArityMismatch(name))
            } else if fuel == 0 || cx.fns[k].body.len() == 0 {
                Err(GenErrorV::InlineTooDeep(name))
            } else {
                emit_expr(
                    cx,
                    st,
                    bind_args(param_names(cx.fns[k].params), emit_each(cx, st, env, args, fuel)),
                    helper_body(cx.fns, k),
                    (fuel - 1) as nat,
                )
            },
            None => if name == "load_i32"@ {
                if args.len() != 1 {
                    Err(GenErrorV::BuiltinArity(name))
                } else {
                    match emit_expr(cx, st, env, args[0], fuel) {
                        Err(e) => Err(e),
                        Ok(c) => Ok(c + seq![Instr::I32Load]),
                    }
                }
            } else if name == "store_i32"@ {
                if args.len() != 2 {
                    Err(GenErrorV::BuiltinArity(name))
                } else {
                    match emit_expr(cx, st, env, args[0], fuel) {
                        Err(e) => Err(e),
                        Ok(c0) => match emit_expr(cx, st, env, args[1], fuel) {
                            Err(e) => Err(e),
                            Ok(c1) => Ok(c0 + c1 + seq![Instr::I32Store]),
                        },
                    }
                }
            } else {
                match lookup(cx.findex, name) {
                    None => Err(GenErrorV::UnknownFn(name)),
                    Some(idx) => match emit_args(cx, st, env, args, fuel) {
                        Err(e) => Err(e),
                        Ok(c) => Ok(c + seq![Instr::Call(idx)]),
                    },
                }
            },
        },
    }
}

/// The code of expressions one after the other.
pub open spec fn emit_args(cx: Cx, st: EStateV, env: Env, args: Seq<ExprV>, fuel: nat) -> GRes<
    Seq<Instr>,
>
    decreases fuel, args,
{
    if args.len() == 0 {
        Ok(Seq::empty())
    } else {
        match emit_args(cx, st, env, args.drop_last(), fuel) {
            Err(e) => Err(e),
            Ok(c) => match emit_expr(cx, st, env, args.last(), fuel) {
                Err(e) => Err(e),
                Ok(c2) => Ok(c + c2),
            },
        }
    }
}

/// The code of each expression (or the error emitting it gives), in order.
pub open spec fn emit_each(cx: Cx, st: EStateV, env: Env, args: Seq<ExprV>, fuel: nat) -> Seq<
    GRes<Seq<Instr>>,
>
    decreases fuel, args,
{
    if args.len() == 0 {
        Seq::empty()
    } else {
        emit_each(cx, st, env, args.drop_last(), fuel).push(emit_expr(cx, st, env, args.last(), fuel))
    }
}

pub open spec fn is_load_call(e: ExprV) -> bool {
    e matches ExprV::Call { name, .. } && name == "load_i32"@
}

pub open spec fn emit_stmt(cx: Cx, st: EStateV, s: StmtV, fuel: nat) -> GRes<(Seq<Instr>, EStateV)>
    decreases s,
{
    match s {
        StmtV::Let { name, expr, .. } => if st.next >= u32::MAX {
            Err(GenErrorV::TooLarge)
        } else {
            let idx = st.next as u32;
            let st2 = EStateV {
                locals: st.locals.push((name, idx)),
                next: st.next + 1,
                nlocals: st.nlocals + 1,
            };
            match emit_expr(cx, st2, Seq::empty(), expr, fuel) {
                Err(e) => Err(e),
                Ok(c) => Ok((c + seq![Instr::LocalSet(idx)], st2)),
            }
        },
        StmtV::Assign { name, expr } => match lookup(st.locals, name) {
            None => Err(GenErrorV::UndefAssign(name)),
            Some(idx) => match emit_expr(cx, st, Seq::empty(), expr, fuel) {
                Err(e) => Err(e),
                Ok(c) => Ok((c + seq![Instr::LocalSet(idx)], st)),
            },
        },
        StmtV::Expr(e) => {
            let void_helper = match e {
                ExprV::Call { name, args } => match lookup(cx.ivoid, name) {
                    Some(k) => Some((name, args, k)),
                    None => None,
                },
                _ => None,
            };
            match void_helper {
                Some((name, args, k)) => if !(0 <= k < cx.fns.len()) || cx.fns[k].params.len()
                    != args.len() {
                    Err(GenErrorV::ArityMismatch(name))
                } else {
                    match emit_args(
                        cx,
                        st,
                        bind_args(
                            param_names(cx.fns[k].params),
                            emit_each(cx, st, Seq::empty(), args, fuel),
                        ),
                        void_exprs(cx.fns, k),
                        fuel,
                    ) {
                        Err(e) => Err(e),
                        Ok(c) => Ok((c, st)),
                    }
                },
                None => match emit_expr(cx, st, Seq::empty(), e, fuel) {
                    Err(e2) => Err(e2),
                    Ok(c) => Ok(
                        (
                            if is_load_call(e) {
                                c + seq![Instr::Drop]
                            } else {
                                c
                            },
                            st,
                        ),
                    ),
                },
            }
        },
        StmtV::Return(opt) => match opt {
            None => Ok((seq![Instr::Return], st)),
            Some(e) => match emit_expr(cx, st, Seq::empty(), e, fuel) {
                Err(e2) => Err(e2),
                Ok(c) => Ok((c + seq![Instr::Return], st)),
            },
        },
        StmtV::If { cond, then_body, else_body } => match emit_expr(cx, st, Seq::empty(), cond, fuel) {
            Err(e) => Err(e),
            Ok(cc) => match emit_stmts(cx, st, then_body, fuel) {
                Err(e) => Err(e),
                Ok((tc, st1)) => match emit_stmts(cx, st1, else_body, fuel) {
                    Err(e) => Err(e),
                    Ok((ec, st2)) => Ok(
                        (
                            cc + seq![Instr::If] + tc + (if else_body.len() > 0 {
                                seq![Instr::Else] + ec
                            } else {
                                Seq::empty()
                            }) + seq![Instr::End],
                            st2,
                        ),
                    ),
                },
            },
        },
        StmtV::While { cond, body } => match emit_expr(cx, st, Seq::empty(), cond, fuel) {
            Err(e) => Err(e),
            Ok(cc) => match emit_stmts(cx, st, body, fuel) {
                Err(e) => Err(e),
                Ok((bc, st1)) => Ok(
                    (
                        seq![Instr::Block, Instr::Loop] + cc + seq![Instr::I32Eqz, Instr::BrIf(1)]
                            + bc + seq![Instr::Br(0), Instr::End, Instr::End],
                        st1,
                    ),
                ),
            },
        },
    }
}

pub open spec fn emit_stmts(cx: Cx, st: EStateV, ss: Seq<StmtV>, fuel: nat) -> GRes<
    (Seq<Instr>, EStateV),
>
    decreases ss,
{
    if ss.len() == 0 {
        Ok((Seq::empty(), st))
    } else {
        match emit_stmts(cx, st, ss.drop_last(), fuel) {
            Err(e) => Err(e),
            Ok((c, st1)) => match emit_stmt(cx, st1, ss.last(), fuel) {
                Err(e) => Err(e),
                Ok((c2, st2)) => Ok((c + c2, st2)),
            },
        }
    }
}

/// The replacement of the instruction pair `a b`, if one of the peephole
/// rules applies: `local.set x; local.get x` becomes `local.tee x`,
/// `i32.const 0; i32.eq` becomes `i32.eqz`, and `x op c` with an identity
/// constant `c` (`+ 0`, `| 0`, `^ 0`, `<< 0`, `>> 0`, `* 1`, `& -1`)
/// becomes `x`.
pub open spec fn peep_rule(a: Instr, b: Instr) -> Option<Seq<Instr>> {
    match (a, b) {
        (Instr::LocalSet(x), Instr::LocalGet(y)) => if x == y {
            Some(seq![Instr::LocalTee(x)])
        } else {
            None
        },
        (Instr::I32Const(0), Instr::I32Eq) => Some(seq![Instr::I32Eqz]),
        (Instr::I32Const(0), Instr::I32Add) => Some(Seq::empty()),
        (Instr::I32Const(0), Instr::I32Or) => Some(Seq::empty()),
        (Instr::I32Const(0), Instr::I32Xor) => Some(Seq::empty()),
        (Instr::I32Const(0), Instr::I32Shl) => Some(Seq::empty()),
        (Instr::I32Const(0), Instr::I32ShrU) => Some(Seq::empty()),
        (Instr::I32Const(0), Instr::I32ShrS) => Some(Seq::empty()),
        (Instr::I32Const(1), Instr::I32Mul) => Some(Seq::empty()),
        (Instr::I32Const(-1), Instr::I32And) => Some(Seq::empty()),
        _ => None,
    }
}

/// One left-to-right pass of the peephole rules over `c`.
pub open spec fn peephole(c: Seq<Instr>) -> Seq<Instr>
    decreases c.len(),
{
    if c.len() == 0 {
        Seq::empty()
    } else if c.len() >= 2 && peep_rule(c[0], c[1]) is Some {
        peep_rule(c[0], c[1]).unwrap() + peephole(c.skip(2))
    } else {
        seq![c[0]] + peephole(c.skip(1))
    }
}

/// The body of a function: its statements, `end`, the peephole pass, and
/// one group of `i32` locals for its `let`s.
/// The parameters as locals `0, 1, ...`.
pub open spec fn param_locals(ps: Seq<(Seq<char>, TypeName)>) -> Seq<(Seq<char>, u32)> {
    Seq::new(ps.len(), |i: int| (ps[i].0, i as u32))
}

pub open spec fn body_of(cx: Cx, f: FnDeclV, fuel: nat) -> GRes<BodyV> {
    let ps = f.params;
    let st0 = EStateV { locals: param_locals(ps), next: ps.len(), nlocals: 0 };
    match emit_stmts(cx, st0, f.body, fuel) {
        Err(e) => Err(e),
        Ok((c, st)) => Ok(
            BodyV {
                locals: if st.nlocals > 0 {
                    seq![(st.nlocals as u32, ValKind::I32)]
                } else {
                    Seq::empty()
                },
                code: peephole(c + seq![Instr::End]),
            },
        ),
    }
}

/// The bodies of the functions at positions `em[..k]`.
pub open spec fn bodies_of(cx: Cx, em: Seq<int>, k: int, fuel: nat) -> GRes<Seq<BodyV>>
    decreases k,
{
    if k <= 0 {
        Ok(Seq::empty())
    } else {
        match bodies_of(cx, em, k - 1, fuel) {
            Err(e) => Err(e),
            Ok(bs) => match body_of(cx, cx.fns[em[k - 1]], fuel) {
                Err(e) => Err(e),
                Ok(b) => Ok(bs.push(b)),
            },
        }
    }
}

/// The module a program compiles to, or the first error.
pub open spec fn spec_module(prog: ProgramV, target: Target, export_start: bool) -> GRes<ModuleIrV> {
    let p = with_start(prog);
    match fold_consts(p.consts, 0, Seq::empty()) {
        Err(e) => Err(e),
        Ok(consts) => match classify(p.fns, 0, Seq::empty(), Seq::empty()) {
            Err(e) => Err(e),
            Ok((imap, ivoid)) => {
                let cands = candidates(p.fns, imap, ivoid, p.fns.len() as int);
                let fnmap = fnmap_of(p.fns, cands);
                let fuel = imap.len() + ivoid.len();
                let cx0 = Cx { fns: p.fns, imap, ivoid, consts, findex: Seq::empty() };
                let roots = roots_of(p.fns, cands, fnmap, target, export_start);
                let live = live_iter(cx0, fnmap, roots, cands.len(), fuel);
                let em = emitted_of(p.fns, cands, live, cands.len() as int);
                let findex = findex_of(fn_names(p.fns, em)).0;
                let cx = Cx { findex, ..cx0 };
                let tys = types_of(em_keys(p.fns, em));
                match exports_spec(p.fns, em, findex, target, export_start) {
                    Err(e) => Err(e),
                    Ok(exports) => match bodies_of(cx, em, em.len() as int, fuel) {
                        Err(e) => Err(e),
                        Ok(bodies) => Ok(
                            ModuleIrV {
                                types: wasm_types(tys.0),
                                imports: Seq::empty(),
                                funcs: tys.1,
                                memory_pages: 32,
                                exports,
                                bodies,
                                data: Seq::empty(),
                            },
                        ),
                    },
                }
            },
        },
    }
}

/// The bytes a program compiles to, or the first error.
pub open spec fn spec_compile(prog: ProgramV, target: Target, export_start: bool) -> GRes<Seq<u8>> {
    match spec_module(prog, target, export_start) {
        Err(e) => Err(e),
        Ok(m) => if module_fits(m) {
            Ok(module_bytes(m))
        } else {
            Err(GenErrorV::TooLarge)
        },
    }
}


// ---------------------------------------------------------------------------
// Implementation: `_start`, constants, helpers
// ---------------------------------------------------------------------------

pub open spec fn idx_view(m: Seq<(String, usize)>) -> Seq<(Seq<char>, int)> {
    m.map_values(|p: (String, usize)| (p.0@, p.1 as int))
}

/// Position of the binding of `name` that `lookup` finds.
fn find_last_idx(m: &Vec<(String, usize)>, name: &String) -> (r: Option<usize>)
    ensures
        match r {
            Some(k) => k < m@.len() && lookup(idx_view(m@), name@) == Some(m@[k as int].1 as int),
            None => lookup(idx_view(m@), name@) is None,
        },
{
    let ghost mv = idx_view(m@);
    let mut k = m.len();
    proof {
        assert(mv.take(k as int) =~= mv);
    }
    while k > 0
        invariant
            k <= m@.len(),
            mv == idx_view(m@),
            lookup(mv, name@) == lookup(mv.take(k as int), name@),
        decreases k,
    {
        proof {
            lemma_lookup_take(mv, k as int);
        }
        if m[k - 1].0 == *name {
            return Some(k - 1);
        }
        k = k - 1;
    }
    None
}

fn start_fn_exec() -> (r: FnDecl)
    ensures
        r@ == start_fn(),
{
    let args = vec![Expr::Num(0), Expr::Num(1024)];
    proof {
        lemma_exprs_view(args@);
        assert(exprs_view(args@) =~= seq![ExprV::Num(0), ExprV::Num(1024)]);
        reveal_strlit("store_i32");
        reveal_strlit("_start");
    }
    let body = vec![
        Stmt::Expr(Expr::Call { name: "store_i32".to_owned(), args }),
        Stmt::Return(None),
    ];
    let params: Vec<(String, TypeName)> = Vec::new();
    proof {
        lemma_stmts_view(body@);
        assert(params_view(params@) =~= Seq::<(Seq<char>, TypeName)>::empty());
    }
    let r = FnDecl {
        exported: false,
        inline: false,
        name: "_start".to_owned(),
        params,
        ret: TypeName::Void,
        body,
    };
    assert(stmts_view(r.body@) =~= start_fn().body);
    r
}

/// Puts a `_start` function first where the program has none (see
/// `with_start`).
pub fn ensure_start(prog: &mut Program)
    ensures
        final(prog)@ == with_start(old(prog)@),
{
    let ghost pv = prog@;
    let start = "_start".to_owned();
    let mut k: usize = 0;
    while k < prog.fns.len()
        invariant
            k <= prog.fns@.len(),
            prog@ == pv,
            start@ == "_start"@,
            forall|j: int| 0 <= j < k ==> (#[trigger] pv.fns[j]).name != "_start"@,
        decreases prog.fns@.len() - k,
    {
        if prog.fns[k].name == start {
            assert(pv.fns[k as int].name == "_start"@);
            return;
        }
        k = k + 1;
    }
    let ghost f0 = fns_view(prog.fns@);
    prog.fns.insert(0, start_fn_exec());
    proof {
        assert(fns_view(prog.fns@) =~= seq![start_fn()] + f0);
        assert(prog@.consts == pv.consts);
        assert(prog@.fns =~= seq![start_fn()] + pv.fns);
    }
}

fn b2i_exec(b: bool) -> (r: i32)
    ensures
        r == b2i(b),
{
    if b {
        1
    } else {
        0
    }
}

fn apply_op_exec(op: BinOp, a: i32, b: i32) -> (r: i32)
    ensures
        r == apply_op(op, a, b),
{
    match op {
        BinOp::Add => a.wrapping_add(b),
        BinOp::Sub => a.wrapping_sub(b),
        BinOp::Mul => a.wrapping_mul(b),
        BinOp::And => a & b,
        BinOp::Or => a | b,
        BinOp::Xor => a ^ b,
        BinOp::Shl => a.wrapping_shl((b & 31) as u32),
        BinOp::Shr => {
            let n = (b & 31) as u32;
            assert(n < 32) by (bit_vector)
                requires
                    n == (b & 31) as u32,
            ;
            a >> n
        },
        BinOp::Eq => b2i_exec(a == b),
        BinOp::Ne => b2i_exec(a != b),
        BinOp::Lt => b2i_exec(a < b),
        BinOp::Le => b2i_exec(a <= b),
        BinOp::Gt => b2i_exec(a > b),
        BinOp::Ge => b2i_exec(a >= b),
    }
}

/// The value of a constant expression (see `fold_const_spec`).
fn fold_const(expr: &Expr, consts: &Vec<(String, i32)>) -> (r: Option<i32>)
    ensures
        r == fold_const_spec(expr@, names_view(consts@)),
    decreases expr,
{
    match expr {
        Expr::Num(n) => Some(*n),
        Expr::Var(s) => match find_last(consts, s) {
            Some(k) => Some(consts[k].1),
            None => None,
        },
        Expr::Call { .. } => None,
        Expr::Bin { op, l, r } => {
            let a = fold_const(l, consts)?;
            let b = fold_const(r, consts)?;
            Some(apply_op_exec(*op, a, b))
        },
    }
}


/// Folds the constants in order (see `fold_consts`).
fn fold_consts_exec(cs: &Vec<ConstDecl>) -> (r: Result<Vec<(String, i32)>, GenError>)
    ensures
        match r {
            Ok(env) => fold_consts(consts_view(cs@), 0, Seq::empty()) == Ok::<_, GenErrorV>(
                names_view(env@),
            ),
            Err(e) => fold_consts(consts_view(cs@), 0, Seq::empty()) == Err::<
                Seq<(Seq<char>, i32)>,
                _,
            >(e@),
        },
{
    let ghost cv = consts_view(cs@);
    let mut env: Vec<(String, i32)> = Vec::new();
    assert(names_view(env@) =~= Seq::<(Seq<char>, i32)>::empty());
    let mut k: usize = 0;
    while k < cs.len()
        invariant
            k <= cs@.len(),
            cv == consts_view(cs@),
            fold_consts(cv, 0, Seq::empty()) == fold_consts(cv, k as int, names_view(env@)),
        decreases cs@.len() - k,
    {
        let c = &cs[k];
        assert(cv[k as int] == c@);
        match fold_const(&c.expr, &env) {
            None => {
                return Err(GenError::ConstNotFoldable(c.name.clone()));
            },
            Some(v) => {
                let ghost e0 = names_view(env@);
                env.push((c.name.clone(), v));
                assert(names_view(env@) =~= e0.push((c@.name, v)));
            },
        }
        k = k + 1;
    }
    Ok(env)
}

fn is_return_expr_exec(body: &Vec<Stmt>) -> (r: bool)
    ensures
        r == is_return_expr(stmts_view(body@)),
{
    proof {
        lemma_stmts_view(body@);
    }
    body.len() == 1 && match &body[0] {
        Stmt::Return(Some(_)) => true,
        _ => false,
    }
}

fn is_expr_list_exec(body: &Vec<Stmt>) -> (r: bool)
    ensures
        r == is_expr_list(stmts_view(body@)),
{
    proof {
        lemma_stmts_view(body@);
    }
    if body.len() == 0 {
        return false;
    }
    let mut k: usize = 0;
    while k < body.len()
        invariant
            k <= body@.len(),
            stmts_view(body@).len() == body@.len(),
            forall|j: int| 0 <= j < body@.len() ==> #[trigger] stmts_view(body@)[j] == stmt_view(body@[j]),
            forall|j: int| 0 <= j < k ==> (#[trigger] stmts_view(body@)[j]) is Expr,
        decreases body@.len() - k,
    {
        match &body[k] {
            Stmt::Expr(_) => {},
            _ => {
                assert(!(stmts_view(body@)[k as int] is Expr));
                return false;
            },
        }
        k = k + 1;
    }
    true
}

/// The inline helpers (see `classify`).
fn classify_exec(fns: &Vec<FnDecl>) -> (r: Result<
    (Vec<(String, usize)>, Vec<(String, usize)>),
    GenError,
>)
    ensures
        match r {
            Ok((im, iv)) => classify(fns_view(fns@), 0, Seq::empty(), Seq::empty()) == Ok::<
                _,
                GenErrorV,
            >((idx_view(im@), idx_view(iv@))),
            Err(e) => classify(fns_view(fns@), 0, Seq::empty(), Seq::empty()) == Err::<
                (Seq<(Seq<char>, int)>, Seq<(Seq<char>, int)>),
                _,
            >(e@),
        },
        r is Ok ==> r->Ok_0.0@.len() + r->Ok_0.1@.len() <= fns@.len(),
{
    let ghost fv = fns_view(fns@);
    let mut imap: Vec<(String, usize)> = Vec::new();
    let mut ivoid: Vec<(String, usize)> = Vec::new();
    assert(idx_view(imap@) =~= Seq::<(Seq<char>, int)>::empty());
    assert(idx_view(ivoid@) =~= Seq::<(Seq<char>, int)>::empty());
    let mut k: usize = 0;
    while k < fns.len()
        invariant
            k <= fns@.len(),
            fv == fns_view(fns@),
            classify(fv, 0, Seq::empty(), Seq::empty()) == classify(
                fv,
                k as int,
                idx_view(imap@),
                idx_view(ivoid@),
            ),
            imap@.len() + ivoid@.len() <= k,
        decreases fns@.len() - k,
    {
        let f = &fns[k];
        assert(fv[k as int] == f@);
        let ghost i0 = idx_view(imap@);
        let ghost v0 = idx_view(ivoid@);
        if f.inline && f.exported {
            return Err(GenError::InlineExported(f.name.clone()));
        }
        let entry = str_is(&f.name, "main") || str_is(&f.name, "_start");
        if !f.exported && !entry && f.ret == TypeName::I32 && is_return_expr_exec(&f.body) {
            imap.push((f.name.clone(), k));
            assert(idx_view(imap@) =~= i0.push((f@.name, k as int)));
        } else if !f.exported && !entry && f.ret == TypeName::Void && is_expr_list_exec(&f.body) {
            ivoid.push((f.name.clone(), k));
            assert(idx_view(ivoid@) =~= v0.push((f@.name, k as int)));
        } else if f.inline {
            return Err(GenError::NotInlineable(f.name.clone()));
        }
        k = k + 1;
    }
    Ok((imap, ivoid))
}

pub open spec fn ivec(v: Seq<usize>) -> Seq<int> {
    v.map_values(|k: usize| k as int)
}

/// Positions of the functions that are not inline helpers (see
/// `candidates`), with those functions by name.
fn candidates_exec(fns: &Vec<FnDecl>, imap: &Vec<(String, usize)>, ivoid: &Vec<(String, usize)>) -> (r: (
    Vec<usize>,
    Vec<(String, usize)>,
))
    ensures
        ivec(r.0@) == candidates(
            fns_view(fns@),
            idx_view(imap@),
            idx_view(ivoid@),
            fns@.len() as int,
        ),
        idx_view(r.1@) == fnmap_of(fns_view(fns@), ivec(r.0@)),
        forall|j: int| 0 <= j < r.0@.len() ==> #[trigger] r.0@[j] < fns@.len(),
{
    let ghost fv = fns_view(fns@);
    let mut cands: Vec<usize> = Vec::new();
    let mut fnmap: Vec<(String, usize)> = Vec::new();
    assert(ivec(cands@) =~= Seq::<int>::empty());
    assert(idx_view(fnmap@) =~= fnmap_of(fv, ivec(cands@)));
    let mut k: usize = 0;
    while k < fns.len()
        invariant
            k <= fns@.len(),
            fv == fns_view(fns@),
            ivec(cands@) == candidates(fv, idx_view(imap@), idx_view(ivoid@), k as int),
            idx_view(fnmap@) == fnmap_of(fv, ivec(cands@)),
            forall|j: int| 0 <= j < cands@.len() ==> #[trigger] cands@[j] < fns@.len(),
        decreases fns@.len() - k,
    {
        let f = &fns[k];
        assert(fv[k as int] == f@);
        if find_last_idx(imap, &f.name).is_none() && find_last_idx(ivoid, &f.name).is_none() {
            let ghost c0 = ivec(cands@);
            let ghost m0 = idx_view(fnmap@);
            cands.push(k);
            fnmap.push((f.name.clone(), k));
            assert(ivec(cands@) =~= c0.push(k as int));
            assert(fnmap_of(fv, c0.push(k as int)) =~= fnmap_of(fv, c0).push((fv[k as int].name, k as int)));
            assert(idx_view(fnmap@) =~= m0.push((f@.name, k as int)));
        }
        k = k + 1;
    }
    (cands, fnmap)
}


// ---------------------------------------------------------------------------
// Implementation: reachability
// ---------------------------------------------------------------------------

/// The program, the helpers, the constants and the function indices.
pub struct Ctx<'a> {
    pub fns: &'a Vec<FnDecl>,
    pub imap: &'a Vec<(String, usize)>,
    pub ivoid: &'a Vec<(String, usize)>,
    pub consts: &'a Vec<(String, i32)>,
    pub findex: &'a Vec<(String, u32)>,
}

impl<'a> Ctx<'a> {
    pub open spec fn view(&self) -> Cx {
        Cx {
            fns: fns_view(self.fns@),
            imap: idx_view(self.imap@),
            ivoid: idx_view(self.ivoid@),
            consts: names_view(self.consts@),
            findex: names_view(self.findex@),
        }
    }
}

pub open spec fn set_view(v: Seq<String>) -> Set<Seq<char>> {
    Set::new(|n: Seq<char>| exists|k: int| 0 <= k < v.len() && (#[trigger] v[k])@ == n)
}

/// Adds `name` to the names in `v`, where it is not there yet.
fn push_unique(v: &mut Vec<String>, name: String)
    ensures
        set_view(final(v)@) == set_view(old(v)@).insert(name@),
{
    let ghost n = name@;
    let ghost s0 = set_view(v@);
    let mut k: usize = 0;
    while k < v.len()
        invariant
            k <= v@.len(),
            s0 == set_view(v@),
            n == name@,
            forall|j: int| 0 <= j < k ==> (#[trigger] v@[j])@ != n,
        decreases v@.len() - k,
    {
        if v[k] == name {
            assert(s0.contains(n));
            assert(s0.insert(n) =~= s0);
            return;
        }
        k = k + 1;
    }
    let ghost v0 = v@;
    v.push(name);
    assert forall|x: Seq<char>| set_view(v@).contains(x) <==> s0.insert(n).contains(x) by {
        if set_view(v@).contains(x) {
            let j = choose|j: int| 0 <= j < v@.len() && (#[trigger] v@[j])@ == x;
            if j < v0.len() {
                assert(v0[j] == v@[j]);
            }
        }
        if s0.contains(x) {
            let j = choose|j: int| 0 <= j < v0.len() && (#[trigger] v0[j])@ == x;
            assert(v@[j] == v0[j]);
        }
        if x == n {
            assert(v@[v0.len() as int]@ == n);
        }
    }
    assert(set_view(v@) =~= s0.insert(n));
}

/// Adds the names in `calls` to `out`.
proof fn lemma_union_assoc(a: Set<Seq<char>>, b: Set<Seq<char>>, c: Set<Seq<char>>)
    ensures
        a + b + c == a + (b + c),
{
    assert(a + b + c =~= a + (b + c));
}

fn is_builtin_exec(name: &String) -> (r: bool)
    ensures
        r == is_builtin(name@),
{
    str_is(name, "load_i32") || str_is(name, "store_i32")
}

/// Adds the functions `e` calls (see `calls_expr`) to `out`.
fn collect_calls_expr(cx: &Ctx, e: &Expr, fuel: usize, out: &mut Vec<String>)
    ensures
        set_view(final(out)@) == set_view(old(out)@) + calls_expr(cx@, e@, fuel as nat),
    decreases fuel, e,
{
    let ghost s0 = set_view(out@);
    match e {
        Expr::Num(_) | Expr::Var(_) => {
            assert(set_view(out@) =~= s0 + calls_expr(cx@, e@, fuel as nat));
        },
        Expr::Bin { l, r, .. } => {
            collect_calls_expr(cx, l, fuel, out);
            collect_calls_expr(cx, r, fuel, out);
            proof {
                lemma_union_assoc(s0, calls_expr(cx@, l@, fuel as nat), calls_expr(cx@, r@, fuel as nat));
            }
        },
        Expr::Call { name, args } => {
            let ghost av = exprs_view(args@);
            proof {
                lemma_exprs_view(args@);
                assert(av.take(0) =~= Seq::<ExprV>::empty());
                assert(set_view(out@) =~= s0 + calls_args(cx@, av.take(0), fuel as nat));
                assert(decreases_to!(*e => *args));
            }
            let mut i: usize = 0;
            while i < args.len()
                invariant
                    i <= args@.len(),
                    av == exprs_view(args@),
                    av.len() == args@.len(),
                    forall|j: int| 0 <= j < args@.len() ==> #[trigger] av[j] == args@[j]@,
                    decreases_to!(*e => *args),
                    set_view(out@) == s0 + calls_args(cx@, av.take(i as int), fuel as nat),
                decreases args@.len() - i,
            {
                proof {
                    assert(decreases_to!(*args => args@));
                    assert(decreases_to!(args@ => args@[i as int]));
                    assert(av.take(i + 1).drop_last() =~= av.take(i as int));
                }
                let ghost s1 = set_view(out@);
                collect_calls_expr(cx, &args[i], fuel, out);
                proof {
                    lemma_union_assoc(
                        s0,
                        calls_args(cx@, av.take(i as int), fuel as nat),
                        calls_expr(cx@, av[i as int], fuel as nat),
                    );
                }
                i = i + 1;
            }
            assert(av.take(i as int) =~= av);
            let ghost s2 = set_view(out@);
            if is_builtin_exec(name) {
                assert(s2 + Set::empty() =~= s2);
                return;
            }
            match find_last_idx(cx.imap, name) {
                Some(k) => {
                    let fi = cx.imap[k].1;
                    if fuel == 0 || fi >= cx.fns.len() || cx.fns[fi].body.len() == 0 {
                        assert(s2 + Set::empty() =~= s2);
                        return;
                    }
                    proof {
                        lemma_stmts_view(cx.fns@[fi as int].body@);
                    }
                    match &cx.fns[fi].body[0] {
                        Stmt::Return(Some(b)) => {
                            collect_calls_expr(cx, b, fuel - 1, out);
                        },
                        _ => {
                            assert(s2 + Set::empty() =~= s2);
                        },
                    }
                    proof {
                        lemma_union_assoc(
                            s0,
                            calls_args(cx@, av, fuel as nat),
                            calls_expr(cx@, helper_body(cx@.fns, fi as int), (fuel - 1) as nat),
                        );
                    }
                },
                None => match find_last_idx(cx.ivoid, name) {
                    Some(k) => {
                        let fi = cx.ivoid[k].1;
                        if fuel == 0 || fi >= cx.fns.len() {
                            assert(s2 + Set::empty() =~= s2);
                            return;
                        }
                        let body = &cx.fns[fi].body;
                        let ghost ve = void_exprs(cx@.fns, fi as int);
                        proof {
                            lemma_stmts_view(body@);
                            assert(ve.take(0) =~= Seq::<ExprV>::empty());
                            assert(set_view(out@) =~= s2 + calls_args(cx@, ve.take(0), (fuel - 1) as nat));
                        }
                        let mut j: usize = 0;
                        while j < body.len()
                            invariant
                                j <= body@.len(),
                                fuel > 0,
                                fi < cx.fns@.len(),
                                body == &cx.fns@[fi as int].body,
                                ve == void_exprs(cx@.fns, fi as int),
                                ve.len() == body@.len(),
                                stmts_view(body@).len() == body@.len(),
                                forall|t: int| 0 <= t < body@.len() ==> #[trigger] stmts_view(body@)[t] == stmt_view(body@[t]),
                                set_view(out@) == s2 + calls_args(cx@, ve.take(j as int), (fuel - 1) as nat),
                            decreases body@.len() - j,
                        {
                            proof {
                                assert(ve.take(j + 1).drop_last() =~= ve.take(j as int));
                                assert(cx@.fns[fi as int].body == stmts_view(body@));
                            }
                            match &body[j] {
                                Stmt::Expr(x) => {
                                    collect_calls_expr(cx, x, fuel - 1, out);
                                },
                                _ => {},
                            }
                            proof {
                                lemma_union_assoc(
                                    s2,
                                    calls_args(cx@, ve.take(j as int), (fuel - 1) as nat),
                                    calls_expr(cx@, ve[j as int], (fuel - 1) as nat),
                                );
                                assert(set_view(out@) =~= s2 + calls_args(cx@, ve.take(j + 1), (fuel - 1) as nat));
                            }
                            j = j + 1;
                        }
                        assert(ve.take(j as int) =~= ve);
                        proof {
                            lemma_union_assoc(s0, calls_args(cx@, av, fuel as nat), calls_args(cx@, ve, (fuel - 1) as nat));
                        }
                    },
                    None => {
                        push_unique(out, name.clone());
                        assert(s2.insert(name@) =~= s2 + set![name@]);
                        proof {
                            lemma_union_assoc(s0, calls_args(cx@, av, fuel as nat), set![name@]);
                        }
                    },
                },
            }
        },
    }
}


/// Adds the functions `s` calls (see `calls_stmt`) to `out`.
fn collect_calls_stmt(cx: &Ctx, s: &Stmt, fuel: usize, out: &mut Vec<String>)
    ensures
        set_view(final(out)@) == set_view(old(out)@) + calls_stmt(cx@, s@, fuel as nat),
    decreases s,
{
    let ghost s0 = set_view(out@);
    match s {
        Stmt::Let { expr, .. } => collect_calls_expr(cx, expr, fuel, out),
        Stmt::Assign { expr, .. } => collect_calls_expr(cx, expr, fuel, out),
        Stmt::Expr(e) => collect_calls_expr(cx, e, fuel, out),
        Stmt::Return(Some(e)) => collect_calls_expr(cx, e, fuel, out),
        Stmt::Return(None) => {
            assert(s0 + Set::empty() =~= s0);
        },
        Stmt::If { cond, then_body, else_body } => {
            collect_calls_expr(cx, cond, fuel, out);
            collect_calls_stmts(cx, then_body, fuel, out);
            collect_calls_stmts(cx, else_body, fuel, out);
            proof {
                let a = calls_expr(cx@, cond@, fuel as nat);
                let b = calls_stmts(cx@, stmts_view(then_body@), fuel as nat);
                let c = calls_stmts(cx@, stmts_view(else_body@), fuel as nat);
                assert(s0 + a + b + c =~= s0 + (a + b + c));
            }
        },
        Stmt::While { cond, body } => {
            collect_calls_expr(cx, cond, fuel, out);
            collect_calls_stmts(cx, body, fuel, out);
            proof {
                lemma_union_assoc(s0, calls_expr(cx@, cond@, fuel as nat), calls_stmts(cx@, stmts_view(body@), fuel as nat));
            }
        },
    }
}

/// Adds the functions the statements `ss` call (see `calls_stmts`) to
/// `out`.
fn collect_calls_stmts(cx: &Ctx, ss: &Vec<Stmt>, fuel: usize, out: &mut Vec<String>)
    ensures
        set_view(final(out)@) == set_view(old(out)@) + calls_stmts(cx@, stmts_view(ss@), fuel as nat),
    decreases ss,
{
    let ghost s0 = set_view(out@);
    let ghost sv = stmts_view(ss@);
    proof {
        lemma_stmts_view(ss@);
        assert(sv.take(0) =~= Seq::<StmtV>::empty());
        assert(set_view(out@) =~= s0 + calls_stmts(cx@, sv.take(0), fuel as nat));
    }
    let mut i: usize = 0;
    while i < ss.len()
        invariant
            i <= ss@.len(),
            sv == stmts_view(ss@),
            sv.len() == ss@.len(),
            forall|j: int| 0 <= j < ss@.len() ==> #[trigger] sv[j] == ss@[j]@,
            set_view(out@) == s0 + calls_stmts(cx@, sv.take(i as int), fuel as nat),
        decreases ss@.len() - i,
    {
        proof {
            assert(decreases_to!(*ss => ss@));
            assert(decreases_to!(ss@ => ss@[i as int]));
            assert(sv.take(i + 1).drop_last() =~= sv.take(i as int));
        }
        collect_calls_stmt(cx, &ss[i], fuel, out);
        proof {
            lemma_union_assoc(s0, calls_stmts(cx@, sv.take(i as int), fuel as nat), calls_stmt(cx@, sv[i as int], fuel as nat));
        }
        i = i + 1;
    }
    assert(sv.take(i as int) =~= sv);
}

fn clone_names(v: &Vec<String>) -> (r: Vec<String>)
    ensures
        set_view(r@) == set_view(v@),
        r@.len() == v@.len(),
        forall|k: int| 0 <= k < v@.len() ==> (#[trigger] r@[k])@ == v@[k]@,
{
    let mut r: Vec<String> = Vec::new();
    let mut k: usize = 0;
    while k < v.len()
        invariant
            k <= v@.len(),
            r@.len() == k,
            forall|j: int| 0 <= j < k ==> (#[trigger] r@[j])@ == v@[j]@,
        decreases v@.len() - k,
    {
        r.push(v[k].clone());
        k = k + 1;
    }
    assert forall|x: Seq<char>| set_view(r@).contains(x) <==> set_view(v@).contains(x) by {
        if set_view(r@).contains(x) {
            let j = choose|j: int| 0 <= j < r@.len() && (#[trigger] r@[j])@ == x;
            assert(v@[j]@ == x);
        }
        if set_view(v@).contains(x) {
            let j = choose|j: int| 0 <= j < v@.len() && (#[trigger] v@[j])@ == x;
            assert(r@[j]@ == x);
        }
    }
    assert(set_view(r@) =~= set_view(v@));
    r
}

/// The calls made by the functions of `live[..i]` found in `fnmap`.
pub open spec fn expand_prefix(cx: Cx, fnmap: Seq<(Seq<char>, int)>, live: Seq<String>, i: int, fuel: nat) -> Set<
    Seq<char>,
> {
    Set::new(
        |n: Seq<char>|
            exists|j: int|
                0 <= j < i && (match lookup(fnmap, (#[trigger] live[j])@) {
                    Some(k) => 0 <= k < cx.fns.len() && calls_stmts(cx, cx.fns[k].body, fuel).contains(
                        n,
                    ),
                    None => false,
                }),
    )
}

/// One step of reachability (see `expand`).
fn expand_exec(cx: &Ctx, fnmap: &Vec<(String, usize)>, live: &Vec<String>, fuel: usize) -> (r: Vec<
    String,
>)
    ensures
        set_view(r@) == expand(cx@, idx_view(fnmap@), set_view(live@), fuel as nat),
{
    let ghost fm = idx_view(fnmap@);
    let mut out = clone_names(live);
    assert(expand_prefix(cx@, fm, live@, 0, fuel as nat) =~= Set::empty());
    assert(set_view(out@) =~= set_view(live@) + expand_prefix(cx@, fm, live@, 0, fuel as nat));
    let mut i: usize = 0;
    while i < live.len()
        invariant
            i <= live@.len(),
            fm == idx_view(fnmap@),
            set_view(out@) == set_view(live@) + expand_prefix(cx@, fm, live@, i as int, fuel as nat),
        decreases live@.len() - i,
    {
        let ghost s0 = set_view(out@);
        match find_last_idx(fnmap, &live[i]) {
            Some(k) => {
                let fi = fnmap[k].1;
                if fi < cx.fns.len() {
                    collect_calls_stmts(cx, &cx.fns[fi].body, fuel, &mut out);
                    proof {
                        let c = calls_stmts(cx@, cx@.fns[fi as int].body, fuel as nat);
                        assert(cx@.fns[fi as int].body == stmts_view(cx.fns@[fi as int].body@));
                        assert(expand_prefix(cx@, fm, live@, i + 1, fuel as nat) =~= expand_prefix(
                            cx@,
                            fm,
                            live@,
                            i as int,
                            fuel as nat,
                        ) + c);
                        lemma_union_assoc(
                            set_view(live@),
                            expand_prefix(cx@, fm, live@, i as int, fuel as nat),
                            c,
                        );
                    }
                } else {
                    assert(expand_prefix(cx@, fm, live@, i + 1, fuel as nat) =~= expand_prefix(
                        cx@,
                        fm,
                        live@,
                        i as int,
                        fuel as nat,
                    ));
                }
            },
            None => {
                assert(expand_prefix(cx@, fm, live@, i + 1, fuel as nat) =~= expand_prefix(
                    cx@,
                    fm,
                    live@,
                    i as int,
                    fuel as nat,
                ));
            },
        }
        i = i + 1;
    }
    let ghost lv = set_view(live@);
    assert forall|n: Seq<char>|
        #![trigger expand_prefix(cx@, fm, live@, live@.len() as int, fuel as nat).contains(n)]
        expand_prefix(cx@, fm, live@, live@.len() as int, fuel as nat).contains(n) <==> (exists|x: Seq<char>|
            #![trigger lv.contains(x), lookup(fm, x)]
            lv.contains(x) && (match lookup(fm, x) {
                Some(k) => 0 <= k < cx@.fns.len() && calls_stmts(cx@, cx@.fns[k].body, fuel as nat).contains(
                    n,
                ),
                None => false,
            })) by {
        if expand_prefix(cx@, fm, live@, live@.len() as int, fuel as nat).contains(n) {
            let j = choose|j: int|
                0 <= j < live@.len() && (match lookup(fm, (#[trigger] live@[j])@) {
                    Some(k) => 0 <= k < cx@.fns.len() && calls_stmts(cx@, cx@.fns[k].body, fuel as nat).contains(
                        n,
                    ),
                    None => false,
                });
            let x = live@[j]@;
            assert(lv.contains(x));
            assert(lookup(fm, x) == lookup(fm, live@[j]@));
        }
        if exists|x: Seq<char>|
            #![trigger lv.contains(x), lookup(fm, x)]
            lv.contains(x) && (match lookup(fm, x) {
                Some(k) => 0 <= k < cx@.fns.len() && calls_stmts(cx@, cx@.fns[k].body, fuel as nat).contains(
                    n,
                ),
                None => false,
            }) {
            let x = choose|x: Seq<char>|
                #![trigger lv.contains(x), lookup(fm, x)]
                lv.contains(x) && (match lookup(fm, x) {
                    Some(k) => 0 <= k < cx@.fns.len() && calls_stmts(cx@, cx@.fns[k].body, fuel as nat).contains(
                        n,
                    ),
                    None => false,
                });
            let j = choose|j: int| 0 <= j < live@.len() && (#[trigger] live@[j])@ == x;
            assert(lookup(fm, live@[j]@) == lookup(fm, x));
        }
    }
    assert(set_view(out@) =~= expand(cx@, fm, lv, fuel as nat));
    out
}

/// The names reachable from `roots` in at most `rounds` call steps (see
/// `live_iter`).
fn live_exec(cx: &Ctx, fnmap: &Vec<(String, usize)>, roots: Vec<String>, rounds: usize, fuel: usize) -> (r:
    Vec<String>)
    ensures
        set_view(r@) == live_iter(cx@, idx_view(fnmap@), set_view(roots@), rounds as nat, fuel as nat),
{
    let mut live = roots;
    let mut n: usize = 0;
    while n < rounds
        invariant
            n <= rounds,
            set_view(live@) == live_iter(cx@, idx_view(fnmap@), set_view(roots@), n as nat, fuel as nat),
        decreases rounds - n,
    {
        live = expand_exec(cx, fnmap, &live, fuel);
        n = n + 1;
    }
    live
}


fn contains_name(v: &Vec<String>, name: &String) -> (r: bool)
    ensures
        r == set_view(v@).contains(name@),
{
    let mut k: usize = 0;
    while k < v.len()
        invariant
            k <= v@.len(),
            forall|j: int| 0 <= j < k ==> (#[trigger] v@[j])@ != name@,
        decreases v@.len() - k,
    {
        if v[k] == *name {
            assert(v@[k as int]@ == name@);
            return true;
        }
        k = k + 1;
    }
    false
}

pub open spec fn exported_prefix(fns: Seq<FnDeclV>, cands: Seq<int>, i: int) -> Set<Seq<char>> {
    Set::new(
        |n: Seq<char>|
            exists|j: int| 0 <= j < i && fns[#[trigger] cands[j]].exported && fns[cands[j]].name == n,
    )
}

/// The entry points (see `roots_of`).
fn roots_exec(
    fns: &Vec<FnDecl>,
    cands: &Vec<usize>,
    fnmap: &Vec<(String, usize)>,
    target: Target,
    export_start: bool,
) -> (r: Vec<String>)
    requires
        forall|j: int| 0 <= j < cands@.len() ==> #[trigger] cands@[j] < fns@.len(),
    ensures
        set_view(r@) == roots_of(
            fns_view(fns@),
            ivec(cands@),
            idx_view(fnmap@),
            target,
            export_start,
        ),
{
    let ghost fv = fns_view(fns@);
    let ghost cv = ivec(cands@);
    let mut r: Vec<String> = Vec::new();
    assert(set_view(r@) =~= exported_prefix(fv, cv, 0));
    let mut j: usize = 0;
    while j < cands.len()
        invariant
            j <= cands@.len(),
            fv == fns_view(fns@),
            cv == ivec(cands@),
            forall|t: int| 0 <= t < cands@.len() ==> #[trigger] cands@[t] < fns@.len(),
            set_view(r@) == exported_prefix(fv, cv, j as int),
        decreases cands@.len() - j,
    {
        let f = &fns[cands[j]];
        assert(fv[cv[j as int]] == f@);
        let ghost s0 = set_view(r@);
        if f.exported {
            push_unique(&mut r, f.name.clone());
            assert(exported_prefix(fv, cv, j + 1) =~= s0.insert(f@.name));
        } else {
            assert(exported_prefix(fv, cv, j + 1) =~= s0);
        }
        j = j + 1;
    }
    let start = "_start".to_owned();
    if export_start && find_last_idx(fnmap, &start).is_some() {
        push_unique(&mut r, start);
    }
    if r.len() == 0 {
        assert(set_view(r@) =~= Set::empty());
        match target {
            Target::Web => {
                r.push("main".to_owned());
                assert(set_view(r@) =~= set!["main"@]) by {
                    assert(r@[0]@ == "main"@);
                }
            },
            Target::Wasi => {
                r.push("_start".to_owned());
                assert(set_view(r@) =~= set!["_start"@]) by {
                    assert(r@[0]@ == "_start"@);
                }
            },
        }
    } else {
        assert(set_view(r@).contains(r@[0]@));
    }
    r
}

/// The candidates that are exported or live (see `emitted_of`).
fn emitted_exec(fns: &Vec<FnDecl>, cands: &Vec<usize>, live: &Vec<String>) -> (r: Vec<usize>)
    requires
        forall|j: int| 0 <= j < cands@.len() ==> #[trigger] cands@[j] < fns@.len(),
    ensures
        ivec(r@) == emitted_of(fns_view(fns@), ivec(cands@), set_view(live@), cands@.len() as int),
        forall|j: int| 0 <= j < r@.len() ==> #[trigger] r@[j] < fns@.len(),
{
    let ghost fv = fns_view(fns@);
    let ghost cv = ivec(cands@);
    let mut r: Vec<usize> = Vec::new();
    assert(ivec(r@) =~= Seq::<int>::empty());
    let mut j: usize = 0;
    while j < cands.len()
        invariant
            j <= cands@.len(),
            fv == fns_view(fns@),
            cv == ivec(cands@),
            forall|t: int| 0 <= t < cands@.len() ==> #[trigger] cands@[t] < fns@.len(),
            ivec(r@) == emitted_of(fv, cv, set_view(live@), j as int),
            forall|t: int| 0 <= t < r@.len() ==> #[trigger] r@[t] < fns@.len(),
        decreases cands@.len() - j,
    {
        let k = cands[j];
        let f = &fns[k];
        assert(fv[cv[j as int]] == f@);
        if f.exported || contains_name(live, &f.name) {
            let ghost r0 = ivec(r@);
            r.push(k);
            assert(ivec(r@) =~= r0.push(k as int));
        }
        j = j + 1;
    }
    r
}

/// Function indices by name (see `findex_of`).
fn findex_exec(fns: &Vec<FnDecl>, em: &Vec<usize>) -> (r: Vec<(String, u32)>)
    requires
        forall|j: int| 0 <= j < em@.len() ==> #[trigger] em@[j] < fns@.len(),
    ensures
        names_view(r@) == findex_of(fn_names(fns_view(fns@), ivec(em@))).0,
{
    let ghost fv = fns_view(fns@);
    let ghost nm = fn_names(fv, ivec(em@));
    let mut m: Vec<(String, u32)> = Vec::new();
    let mut d: u64 = 0;
    assert(nm.take(0) =~= Seq::<Seq<char>>::empty());
    assert(names_view(m@) =~= Seq::<(Seq<char>, u32)>::empty());
    let mut j: usize = 0;
    while j < em.len()
        invariant
            j <= em@.len(),
            fv == fns_view(fns@),
            nm == fn_names(fv, ivec(em@)),
            nm.len() == em@.len(),
            forall|t: int| 0 <= t < em@.len() ==> #[trigger] em@[t] < fns@.len(),
            (names_view(m@), d as nat) == findex_of(nm.take(j as int)),
            d <= j,
        decreases em@.len() - j,
    {
        let f = &fns[em[j]];
        assert(nm[j as int] == f@.name);
        assert(nm.take(j + 1).drop_last() =~= nm.take(j as int));
        let ghost m0 = names_view(m@);
        let known = find_last(&m, &f.name).is_some();
        m.push((f.name.clone(), d as u32));
        assert(names_view(m@) =~= m0.push((f@.name, d as u32)));
        if !known {
            d = d + 1;
        }
        j = j + 1;
    }
    assert(nm.take(j as int) =~= nm);
    m
}

pub open spec fn key_view(k: (Vec<TypeName>, TypeName)) -> TypeKey {
    (k.0@, k.1)
}

pub open spec fn keys_view(ks: Seq<(Vec<TypeName>, TypeName)>) -> Seq<TypeKey> {
    ks.map_values(|k: (Vec<TypeName>, TypeName)| key_view(k))
}

fn same_types(a: &Vec<TypeName>, b: &Vec<TypeName>) -> (r: bool)
    ensures
        r == (a@ == b@),
{
    if a.len() != b.len() {
        return false;
    }
    let mut k: usize = 0;
    while k < a.len()
        invariant
            k <= a@.len(),
            a@.len() == b@.len(),
            forall|j: int| 0 <= j < k ==> a@[j] == b@[j],
        decreases a@.len() - k,
    {
        if a[k] != b[k] {
            return false;
        }
        k = k + 1;
    }
    assert(a@ =~= b@);
    true
}

proof fn lemma_index_of_key(keys: Seq<TypeKey>, key: TypeKey, j: int)
    requires
        0 <= j <= keys.len(),
        forall|t: int| 0 <= t < j ==> keys[t] != key,
    ensures
        index_of_key(keys.take(j), key) == -1,
    decreases j,
{
    if j > 0 {
        assert(keys.take(j).drop_last() =~= keys.take(j - 1));
        lemma_index_of_key(keys, key, j - 1);
    }
}

proof fn lemma_index_of_key_found(keys: Seq<TypeKey>, key: TypeKey, j: int, n: int)
    requires
        0 <= j < n <= keys.len(),
        keys[j] == key,
        forall|t: int| 0 <= t < j ==> keys[t] != key,
    ensures
        index_of_key(keys.take(n), key) == j,
    decreases n,
{
    assert(keys.take(n).drop_last() =~= keys.take(n - 1));
    if n - 1 == j {
        lemma_index_of_key(keys, key, j);
    } else {
        lemma_index_of_key_found(keys, key, j, n - 1);
    }
}

/// Index of `key` among `keys`, or `None`.
fn find_key(keys: &Vec<(Vec<TypeName>, TypeName)>, params: &Vec<TypeName>, ret: TypeName) -> (r: Option<
    usize,
>)
    ensures
        match r {
            Some(j) => index_of_key(keys_view(keys@), (params@, ret)) == j as int,
            None => index_of_key(keys_view(keys@), (params@, ret)) == -1,
        },
{
    let ghost kv = keys_view(keys@);
    let mut j: usize = 0;
    while j < keys.len()
        invariant
            j <= keys@.len(),
            kv == keys_view(keys@),
            forall|t: int| 0 <= t < j ==> kv[t] != (params@, ret),
        decreases keys@.len() - j,
    {
        if keys[j].1 == ret && same_types(&keys[j].0, params) {
            proof {
                lemma_index_of_key_found(kv, (params@, ret), j as int, kv.len() as int);
                assert(kv.take(kv.len() as int) =~= kv);
            }
            return Some(j);
        }
        j = j + 1;
    }
    proof {
        lemma_index_of_key(kv, (params@, ret), kv.len() as int);
        assert(kv.take(kv.len() as int) =~= kv);
    }
    None
}

pub open spec fn em_keys(fns: Seq<FnDeclV>, em: Seq<int>) -> Seq<TypeKey> {
    em.map_values(|k: int| key_of(fns[k]))
}

/// The distinct function types and the type index of each emitted function
/// (see `types_of`).
fn types_exec(fns: &Vec<FnDecl>, em: &Vec<usize>) -> (r: (Vec<(Vec<TypeName>, TypeName)>, Vec<u32>))
    requires
        forall|j: int| 0 <= j < em@.len() ==> #[trigger] em@[j] < fns@.len(),
    ensures
        (keys_view(r.0@), r.1@) == types_of(em_keys(fns_view(fns@), ivec(em@))),
{
    let ghost fv = fns_view(fns@);
    let ghost ks = em_keys(fv, ivec(em@));
    let mut keys: Vec<(Vec<TypeName>, TypeName)> = Vec::new();
    let mut idx: Vec<u32> = Vec::new();
    assert(ks.take(0) =~= Seq::<TypeKey>::empty());
    assert(keys_view(keys@) =~= Seq::<TypeKey>::empty());
    let mut j: usize = 0;
    while j < em.len()
        invariant
            j <= em@.len(),
            fv == fns_view(fns@),
            ks == em_keys(fv, ivec(em@)),
            ks.len() == em@.len(),
            forall|t: int| 0 <= t < em@.len() ==> #[trigger] em@[t] < fns@.len(),
            (keys_view(keys@), idx@) == types_of(ks.take(j as int)),
            keys@.len() <= j,
        decreases em@.len() - j,
    {
        let f = &fns[em[j]];
        let mut ps: Vec<TypeName> = Vec::new();
        let mut t: usize = 0;
        while t < f.params.len()
            invariant
                t <= f.params@.len(),
                ps@ =~= f@.params.map_values(|p: (Seq<char>, TypeName)| p.1).take(t as int),
            decreases f.params@.len() - t,
        {
            ps.push(f.params[t].1);
            t = t + 1;
        }
        assert(ps@ =~= f@.params.map_values(|p: (Seq<char>, TypeName)| p.1));
        assert(ks[j as int] == (ps@, f.ret));
        assert(ks.take(j + 1).drop_last() =~= ks.take(j as int));
        let ghost k0 = keys_view(keys@);
        let ghost i0 = idx@;
        match find_key(&keys, &ps, f.ret) {
            Some(i) => {
                idx.push(i as u32);
            },
            None => {
                idx.push(keys.len() as u32);
                keys.push((ps, f.ret));
                assert(keys_view(keys@) =~= k0.push(ks[j as int]));
            },
        }
        j = j + 1;
    }
    assert(ks.take(j as int) =~= ks);
    (keys, idx)
}

fn i32_kinds_exec(ts: &Vec<TypeName>) -> (r: Vec<ValKind>)
    ensures
        r@ == i32_kinds(ts@),
{
    let mut r: Vec<ValKind> = Vec::new();
    let mut k: usize = 0;
    while k < ts.len()
        invariant
            k <= ts@.len(),
            r@ == i32_kinds(ts@.take(k as int)),
        decreases ts@.len() - k,
    {
        assert(ts@.take(k + 1).drop_last() =~= ts@.take(k as int));
        if ts[k] == TypeName::I32 {
            r.push(ValKind::I32);
        }
        k = k + 1;
    }
    assert(ts@.take(k as int) =~= ts@);
    r
}

pub open spec fn ftypes_view(v: Seq<FuncType>) -> Seq<(Seq<ValKind>, Seq<ValKind>)> {
    v.map_values(|t: FuncType| t@)
}

fn wasm_types_exec(keys: &Vec<(Vec<TypeName>, TypeName)>) -> (r: Vec<FuncType>)
    ensures
        ftypes_view(r@) == wasm_types(keys_view(keys@)),
{
    let mut r: Vec<FuncType> = Vec::new();
    let mut k: usize = 0;
    while k < keys.len()
        invariant
            k <= keys@.len(),
            ftypes_view(r@) =~= wasm_types(keys_view(keys@)).take(k as int),
        decreases keys@.len() - k,
    {
        let results_in = vec![keys[k].1];
        assert(results_in@ =~= seq![keys@[k as int].1]);
        let ghost r0 = ftypes_view(r@);
        let ft = FuncType { params: i32_kinds_exec(&keys[k].0), results: i32_kinds_exec(&results_in) };
        assert(ft@ == wasm_type(key_view(keys@[k as int])));
        r.push(ft);
        assert(ftypes_view(r@) =~= r0.push(wasm_type(key_view(keys@[k as int]))));
        assert(wasm_types(keys_view(keys@)).take(k + 1) =~= wasm_types(keys_view(keys@)).take(
            k as int,
        ).push(wasm_type(key_view(keys@[k as int]))));
        k = k + 1;
    }
    assert(wasm_types(keys_view(keys@)).take(k as int) =~= wasm_types(keys_view(keys@)));
    r
}


pub open spec fn exports_view(v: Seq<Export>) -> Seq<ExportV> {
    v.map_values(|e: Export| e@)
}

fn find_index(findex: &Vec<(String, u32)>, name: &String) -> (r: Option<u32>)
    ensures
        r == lookup(names_view(findex@), name@),
{
    match find_last(findex, name) {
        Some(k) => Some(findex[k].1),
        None => None,
    }
}

/// The exports (see `exports_spec`).
fn exports_exec(
    fns: &Vec<FnDecl>,
    em: &Vec<usize>,
    findex: &Vec<(String, u32)>,
    target: Target,
    export_start: bool,
) -> (r: Result<Vec<Export>, GenError>)
    requires
        forall|j: int| 0 <= j < em@.len() ==> #[trigger] em@[j] < fns@.len(),
    ensures
        match r {
            Ok(v) => exports_spec(fns_view(fns@), ivec(em@), names_view(findex@), target, export_start)
                == Ok::<_, GenErrorV>(exports_view(v@)),
            Err(e) => exports_spec(fns_view(fns@), ivec(em@), names_view(findex@), target, export_start)
                == Err::<Seq<ExportV>, _>(e@),
        },
{
    let ghost fv = fns_view(fns@);
    let ghost ev = ivec(em@);
    let ghost fi = names_view(findex@);
    proof {
        reveal_strlit("memory");
    }
    let mut out: Vec<Export> = vec![Export { name: "memory".to_owned(), kind: ExportKind::Memory, index: 0 }];
    let ghost mem = seq![ExportV { name: "memory"@, kind: ExportKind::Memory, index: 0 }];
    assert(exports_view(out@) =~= mem + func_exports(fv, ev, fi, 0));
    let start = "_start".to_owned();
    let mut start_exported = false;
    let mut j: usize = 0;
    while j < em.len()
        invariant
            j <= em@.len(),
            fv == fns_view(fns@),
            ev == ivec(em@),
            fi == names_view(findex@),
            start@ == "_start"@,
            forall|t: int| 0 <= t < em@.len() ==> #[trigger] em@[t] < fns@.len(),
            exports_view(out@) == mem + func_exports(fv, ev, fi, j as int),
            start_exported == exists|t: int|
                0 <= t < j && fv[#[trigger] ev[t]].name == "_start"@ && fv[ev[t]].exported,
        decreases em@.len() - j,
    {
        let f = &fns[em[j]];
        assert(fv[ev[j as int]] == f@);
        let ghost o0 = exports_view(out@);
        if f.exported {
            let index = match find_index(findex, &f.name) {
                Some(i) => i,
                None => 0,
            };
            out.push(Export { name: f.name.clone(), kind: ExportKind::Func, index });
            assert(exports_view(out@) =~= o0.push(
                ExportV { name: f@.name, kind: ExportKind::Func, index },
            ));
            if f.name == start {
                start_exported = true;
            }
        }
        j = j + 1;
    }
    let ghost base = exports_view(out@);
    if export_start && !start_exported {
        match find_index(findex, &start) {
            Some(i) => {
                out.push(Export { name: start, kind: ExportKind::Func, index: i });
                assert(exports_view(out@) =~= base.push(fexport("_start"@, i)));
            },
            None => {},
        }
    }
    if out.len() == 1 {
        let ghost w = exports_view(out@);
        match target {
            Target::Web => {
                let main = "main".to_owned();
                match find_index(findex, &main) {
                    Some(i) => {
                        out.push(Export { name: main, kind: ExportKind::Func, index: i });
                        assert(exports_view(out@) =~= w.push(fexport("main"@, i)));
                    },
                    None => {
                        return Err(GenError::MissingMain);
                    },
                }
            },
            Target::Wasi => {
                let st = "_start".to_owned();
                match find_index(findex, &st) {
                    Some(i) => {
                        out.push(Export { name: st, kind: ExportKind::Func, index: i });
                        assert(exports_view(out@) =~= w.push(fexport("_start"@, i)));
                    },
                    None => {
                        return Err(GenError::MissingStart);
                    },
                }
            },
        }
    }
    Ok(out)
}


// ---------------------------------------------------------------------------
// Implementation: code of the bodies
// ---------------------------------------------------------------------------

pub open spec fn pnames(ps: Seq<(String, TypeName)>) -> Seq<Seq<char>> {
    param_names(params_view(ps))
}

/// The locals of the function being emitted (see `EStateV`).
pub struct EState {
    pub locals: Vec<(String, u32)>,
    pub next: u64,
    pub nlocals: u64,
}

impl View for EState {
    type V = EStateV;

    open spec fn view(&self) -> EStateV {
        EStateV {
            locals: names_view(self.locals@),
            next: self.next as nat,
            nlocals: self.nlocals as nat,
        }
    }
}

fn binop_instr_exec(op: BinOp) -> (r: Instr)
    ensures
        r == binop_instr(op),
{
    match op {
        BinOp::Add => Instr::I32Add,
        BinOp::Sub => Instr::I32Sub,
        BinOp::Mul => Instr::I32Mul,
        BinOp::And => Instr::I32And,
        BinOp::Or => Instr::I32Or,
        BinOp::Xor => Instr::I32Xor,
        BinOp::Shl => Instr::I32Shl,
        BinOp::Shr => Instr::I32ShrS,
        BinOp::Eq => Instr::I32Eq,
        BinOp::Ne => Instr::I32Ne,
        BinOp::Lt => Instr::I32LtS,
        BinOp::Le => Instr::I32LeS,
        BinOp::Gt => Instr::I32GtS,
        BinOp::Ge => Instr::I32GeS,
    }
}

fn append(dst: &mut Vec<Instr>, src: Vec<Instr>)
    ensures
        final(dst)@ == old(dst)@ + src@,
{
    let mut src = src;
    dst.append(&mut src);
}

/// The code of an argument, or the error emitting it gave.
pub type ArgCode = Result<Vec<Instr>, GenError>;

pub open spec fn res_view(r: ArgCode) -> GRes<Seq<Instr>> {
    match r {
        Ok(c) => Ok(c@),
        Err(e) => Err(e@),
    }
}

pub open spec fn env_view(v: Seq<(String, ArgCode)>) -> Env {
    v.map_values(|p: (String, ArgCode)| (p.0@, res_view(p.1)))
}

/// The binding of `name` that `lookup` finds in the environment.
fn find_env(env: &Vec<(String, ArgCode)>, name: &String) -> (r: Option<usize>)
    ensures
        match r {
            Some(k) => k < env@.len() && lookup(env_view(env@), name@) == Some(res_view(env@[k as int].1)),
            None => lookup(env_view(env@), name@) is None,
        },
{
    let ghost mv = env_view(env@);
    let mut k = env.len();
    proof {
        assert(mv.take(k as int) =~= mv);
    }
    while k > 0
        invariant
            k <= env@.len(),
            mv == env_view(env@),
            lookup(mv, name@) == lookup(mv.take(k as int), name@),
        decreases k,
    {
        proof {
            lemma_lookup_take(mv, k as int);
        }
        if env[k - 1].0 == *name {
            return Some(k - 1);
        }
        k = k - 1;
    }
    None
}

fn copy_code(c: &Vec<Instr>) -> (r: Vec<Instr>)
    ensures
        r@ == c@,
{
    let mut out: Vec<Instr> = Vec::new();
    let mut i: usize = 0;
    while i < c.len()
        invariant
            i <= c@.len(),
            out@ == c@.take(i as int),
        decreases c@.len() - i,
    {
        out.push(c[i]);
        assert(out@ =~= c@.take(i + 1));
        i = i + 1;
    }
    assert(c@.take(i as int) =~= c@);
    out
}

fn clone_err(e: &GenError) -> (r: GenError)
    ensures
        r@ == e@,
{
    match e {
        GenError::ConstNotFoldable(n) => GenError::ConstNotFoldable(n.clone()),
        GenError::InlineExported(n) => GenError::InlineExported(n.clone()),
        GenError::NotInlineable(n) => GenError::NotInlineable(n.clone()),
        GenError::MissingMain => GenError::MissingMain,
        GenError::MissingStart => GenError::MissingStart,
        GenError::UndefinedVar(n) => GenError::UndefinedVar(n.clone()),
        GenError::UndefAssign(n) => GenError::UndefAssign(n.clone()),
        GenError::ArityMismatch(n) => GenError::ArityMismatch(n.clone()),
        GenError::BuiltinArity(n) => GenError::BuiltinArity(n.clone()),
        GenError::UnknownFn(n) => GenError::UnknownFn(n.clone()),
        GenError::InlineTooDeep(n) => GenError::InlineTooDeep(n.clone()),
        GenError::TooLarge => GenError::TooLarge,
    }
}

fn copy_arg_code(r: &ArgCode) -> (o: ArgCode)
    ensures
        res_view(o) == res_view(*r),
{
    match r {
        Ok(c) => Ok(copy_code(c)),
        Err(e) => Err(clone_err(e)),
    }
}

/// The code of an expression (see `emit_expr`).
fn emit_expr_exec(cx: &Ctx, st: &EState, env: &Vec<(String, ArgCode)>, e: &Expr, fuel: usize) -> (r:
    Result<Vec<Instr>, GenError>)
    ensures
        match r {
            Ok(c) => emit_expr(cx@, st@, env_view(env@), e@, fuel as nat) == Ok::<_, GenErrorV>(c@),
            Err(err) => emit_expr(cx@, st@, env_view(env@), e@, fuel as nat) == Err::<Seq<Instr>, _>(
                err@,
            ),
        },
    decreases fuel, e,
{
    let ghost ev = env_view(env@);
    match e {
        Expr::Num(n) => {
            let c = vec![Instr::I32Const(*n)];
            assert(c@ =~= seq![Instr::I32Const(*n)]);
            Ok(c)
        },
        Expr::Var(name) => match find_env(env, name) {
            Some(k) => copy_arg_code(&env[k].1),
            None => match find_last(cx.consts, name) {
                Some(k) => {
                    let c = vec![Instr::I32Const(cx.consts[k].1)];
                    assert(c@ =~= seq![Instr::I32Const(cx.consts@[k as int].1)]);
                    Ok(c)
                },
                None => match find_last(&st.locals, name) {
                    Some(k) => {
                        let c = vec![Instr::LocalGet(st.locals[k].1)];
                        assert(c@ =~= seq![Instr::LocalGet(st.locals@[k as int].1)]);
                        Ok(c)
                    },
                    None => Err(GenError::UndefinedVar(name.clone())),
                },
            },
        },
        Expr::Bin { op, l, r } => {
            let mut c = emit_expr_exec(cx, st, env, l, fuel)?;
            let c2 = emit_expr_exec(cx, st, env, r, fuel)?;
            let ghost a = c@;
            let ghost b = c2@;
            append(&mut c, c2);
            c.push(binop_instr_exec(*op));
            assert(c@ =~= a + b + seq![binop_instr(*op)]);
            Ok(c)
        },
        Expr::Call { name, args } => {
            proof {
                lemma_exprs_view(args@);
            }
            let ghost av = exprs_view(args@);
            match find_last_idx(cx.imap, name) {
                Some(k) => {
                    let fi = cx.imap[k].1;
                    if fi >= cx.fns.len() || cx.fns[fi].params.len() != args.len() {
                        return Err(GenError::ArityMismatch(name.clone()));
                    }
                    if fuel == 0 || cx.fns[fi].body.len() == 0 {
                        return Err(GenError::InlineTooDeep(name.clone()));
                    }
                    let f = &cx.fns[fi];
                    let ghost ps = pnames(f.params@);
                    assert(ps == param_names(cx@.fns[fi as int].params));
                    assert(ps.len() == f.params@.len());
                    // The code of each argument, bound to its parameter.
                    let mut bound: Vec<(String, ArgCode)> = Vec::new();
                    let mut i: usize = 0;
                    assert(decreases_to!(*e => *args));
                    assert(av.take(0) =~= Seq::<ExprV>::empty());
                    assert(env_view(bound@) =~= bind_args(
                        ps,
                        emit_each(cx@, st@, ev, av.take(0), fuel as nat),
                    ));
                    while i < args.len()
                        invariant
                            i <= args@.len(),
                            args@.len() == f.params@.len(),
                            ps == pnames(f.params@),
                            ps.len() == f.params@.len(),
                            ev == env_view(env@),
                            av == exprs_view(args@),
                            av.len() == args@.len(),
                            forall|j: int| 0 <= j < args@.len() ==> #[trigger] av[j] == args@[j]@,
                            decreases_to!(*e => *args),
                            env_view(bound@) == bind_args(
                                ps,
                                emit_each(cx@, st@, ev, av.take(i as int), fuel as nat),
                            ),
                        decreases args@.len() - i,
                    {
                        proof {
                            assert(decreases_to!(*args => args@));
                            assert(decreases_to!(args@ => args@[i as int]));
                            assert(av.take(i + 1).drop_last() =~= av.take(i as int));
                        }
                        let r = emit_expr_exec(cx, st, env, &args[i], fuel);
                        let ghost b0 = env_view(bound@);
                        let ghost rs = emit_each(cx@, st@, ev, av.take(i as int), fuel as nat);
                        let pn = f.params[i].0.clone();
                        proof {
                            assert(res_view(r) == emit_expr(cx@, st@, ev, av[i as int], fuel as nat));
                            assert(ps[i as int] == pn@);
                        }
                        bound.push((pn, r));
                        proof {
                            let rs2 = emit_each(cx@, st@, ev, av.take(i + 1), fuel as nat);
                            assert(rs2 == rs.push(emit_expr(cx@, st@, ev, av[i as int], fuel as nat)));
                            lemma_emit_each_len(cx@, st@, ev, av.take(i as int), fuel as nat);
                            assert(b0.len() == i);
                            assert(rs.len() == i);
                            assert(rs2.len() == i + 1);
                            assert forall|t: int| 0 <= t < i + 1 implies env_view(bound@)[t] == bind_args(ps, rs2)[t] by {
                                if t < i {
                                    assert(env_view(bound@)[t] == b0[t]);
                                    assert(b0[t] == bind_args(ps, rs)[t]);
                                }
                            }
                            assert(env_view(bound@) =~= bind_args(ps, rs2));
                        }
                        i = i + 1;
                    }
                    assert(av.take(i as int) =~= av);
                    proof {
                        lemma_stmts_view(f.body@);
                        assert(cx@.fns[fi as int] == f@);
                        assert(f@.body[0] == stmt_view(f.body@[0]));
                    }
                    assert(env_view(bound@) == bind_args(
                        param_names(cx@.fns[fi as int].params),
                        emit_each(cx@, st@, ev, av, fuel as nat),
                    ));
                    assert(emit_expr(cx@, st@, ev, e@, fuel as nat) == emit_expr(
                        cx@,
                        st@,
                        env_view(bound@),
                        helper_body(cx@.fns, fi as int),
                        (fuel - 1) as nat,
                    ));
                    match &f.body[0] {
                        Stmt::Return(Some(b)) => {
                            assert(helper_body(cx@.fns, fi as int) == b@);
                            emit_expr_exec(cx, st, &bound, b, fuel - 1)
                        },
                        _ => {
                            let c = vec![Instr::I32Const(0)];
                            assert(c@ =~= seq![Instr::I32Const(0)]);
                            Ok(c)
                        },
                    }
                },
                None => {
                    if str_is(name, "load_i32") {
                        if args.len() != 1 {
                            return Err(GenError::BuiltinArity(name.clone()));
                        }
                        proof {
                            assert(decreases_to!(*e => *args));
                            assert(decreases_to!(*args => args@));
                            assert(decreases_to!(args@ => args@[0]));
                        }
                        let mut c = emit_expr_exec(cx, st, env, &args[0], fuel)?;
                        let ghost a = c@;
                        c.push(Instr::I32Load);
                        assert(c@ =~= a + seq![Instr::I32Load]);
                        Ok(c)
                    } else if str_is(name, "store_i32") {
                        if args.len() != 2 {
                            return Err(GenError::BuiltinArity(name.clone()));
                        }
                        proof {
                            assert(decreases_to!(*e => *args));
                            assert(decreases_to!(*args => args@));
                            assert(decreases_to!(args@ => args@[0]));
                            assert(decreases_to!(args@ => args@[1]));
                        }
                        let mut c = emit_expr_exec(cx, st, env, &args[0], fuel)?;
                        let c1 = emit_expr_exec(cx, st, env, &args[1], fuel)?;
                        let ghost a = c@;
                        let ghost b = c1@;
                        append(&mut c, c1);
                        c.push(Instr::I32Store);
                        assert(c@ =~= a + b + seq![Instr::I32Store]);
                        Ok(c)
                    } else {
                        let idx = match find_index(cx.findex, name) {
                            None => {
                                return Err(GenError::UnknownFn(name.clone()));
                            },
                            Some(i) => i,
                        };
                        let mut c: Vec<Instr> = Vec::new();
                        assert(av.take(0) =~= Seq::<ExprV>::empty());
                        assert(decreases_to!(*e => *args));
                        let mut i: usize = 0;
                        while i < args.len()
                            invariant
                                i <= args@.len(),
                                ev == env_view(env@),
                                av == exprs_view(args@),
                                av.len() == args@.len(),
                                forall|j: int| 0 <= j < args@.len() ==> #[trigger] av[j] == args@[j]@,
                                decreases_to!(*e => *args),
                                e@ == (ExprV::Call { name: name@, args: av }),
                                lookup(cx@.imap, name@) is None,
                                name@ != "load_i32"@,
                                name@ != "store_i32"@,
                                lookup(cx@.findex, name@) == Some(idx),
                                emit_args(cx@, st@, ev, av.take(i as int), fuel as nat) == Ok::<
                                    _,
                                    GenErrorV,
                                >(c@),
                            decreases args@.len() - i,
                        {
                            proof {
                                assert(decreases_to!(*args => args@));
                                assert(decreases_to!(args@ => args@[i as int]));
                                assert(av.take(i + 1).drop_last() =~= av.take(i as int));
                            }
                            let c2 = match emit_expr_exec(cx, st, env, &args[i], fuel) {
                                Err(err) => {
                                    assert(emit_args(cx@, st@, ev, av.take(i + 1), fuel as nat) == Err::<
                                        Seq<Instr>,
                                        GenErrorV,
                                    >(err@));
                                    proof {
                                        lemma_emit_args_err(cx@, st@, ev, av, i + 1, fuel as nat);
                                    }
                                    return Err(err);
                                },
                                Ok(c2) => c2,
                            };
                            append(&mut c, c2);
                            i = i + 1;
                        }
                        assert(av.take(i as int) =~= av);
                        let ghost a = c@;
                        c.push(Instr::Call(idx));
                        assert(c@ =~= a + seq![Instr::Call(idx)]);
                        Ok(c)
                    }
                },
            }
        },
    }
}

/// An error in the code of some arguments is an error of the whole list.
proof fn lemma_emit_args_err(cx: Cx, st: EStateV, env: Env, av: Seq<ExprV>, i: int, fuel: nat)
    requires
        0 <= i <= av.len(),
        emit_args(cx, st, env, av.take(i), fuel) is Err,
    ensures
        emit_args(cx, st, env, av, fuel) == emit_args(cx, st, env, av.take(i), fuel),
    decreases av.len() - i,
{
    if i < av.len() {
        assert(av.take(i + 1).drop_last() =~= av.take(i));
        lemma_emit_args_err(cx, st, env, av, i + 1, fuel);
    } else {
        assert(av.take(i) =~= av);
    }
}

proof fn lemma_emit_each_len(cx: Cx, st: EStateV, env: Env, args: Seq<ExprV>, fuel: nat)
    ensures
        emit_each(cx, st, env, args, fuel).len() == args.len(),
    decreases args.len(),
{
    if args.len() > 0 {
        lemma_emit_each_len(cx, st, env, args.drop_last(), fuel);
    }
}

/// The parameters of a void helper bound to the code of the arguments
/// (see `bind_args` and `emit_each`).
fn bind_void_args(cx: &Ctx, st: &EState, f: &FnDecl, args: &Vec<Expr>, fuel: usize) -> (r: Vec<
    (String, ArgCode),
>)
    requires
        f.params@.len() == args@.len(),
    ensures
        env_view(r@) == bind_args(
            pnames(f.params@),
            emit_each(cx@, st@, Seq::empty(), exprs_view(args@), fuel as nat),
        ),
{
    let empty: Vec<(String, ArgCode)> = Vec::new();
    assert(env_view(empty@) =~= Seq::<(Seq<char>, GRes<Seq<Instr>>)>::empty());
    let ghost ev = env_view(empty@);
    let ghost ps = pnames(f.params@);
    proof {
        lemma_exprs_view(args@);
    }
    let ghost av = exprs_view(args@);
    let mut bound: Vec<(String, ArgCode)> = Vec::new();
    let mut i: usize = 0;
    assert(av.take(0) =~= Seq::<ExprV>::empty());
    assert(env_view(bound@) =~= bind_args(ps, emit_each(cx@, st@, ev, av.take(0), fuel as nat)));
    while i < args.len()
        invariant
            i <= args@.len(),
            args@.len() == f.params@.len(),
            ps == pnames(f.params@),
            ps.len() == f.params@.len(),
            ev == env_view(empty@),
            ev == Seq::<(Seq<char>, GRes<Seq<Instr>>)>::empty(),
            av == exprs_view(args@),
            av.len() == args@.len(),
            forall|j: int| 0 <= j < args@.len() ==> #[trigger] av[j] == args@[j]@,
            env_view(bound@) == bind_args(ps, emit_each(cx@, st@, ev, av.take(i as int), fuel as nat)),
        decreases args@.len() - i,
    {
        assert(av.take(i + 1).drop_last() =~= av.take(i as int));
        let r = emit_expr_exec(cx, st, &empty, &args[i], fuel);
        let ghost b0 = env_view(bound@);
        let ghost rs = emit_each(cx@, st@, ev, av.take(i as int), fuel as nat);
        let pn = f.params[i].0.clone();
        proof {
            assert(res_view(r) == emit_expr(cx@, st@, ev, av[i as int], fuel as nat));
            assert(ps[i as int] == pn@);
        }
        bound.push((pn, r));
        proof {
            let rs2 = emit_each(cx@, st@, ev, av.take(i + 1), fuel as nat);
            assert(rs2 == rs.push(emit_expr(cx@, st@, ev, av[i as int], fuel as nat)));
            lemma_emit_each_len(cx@, st@, ev, av.take(i as int), fuel as nat);
            assert(b0.len() == i);
            assert(rs.len() == i);
            assert(rs2.len() == i + 1);
            assert forall|t: int| 0 <= t < i + 1 implies env_view(bound@)[t] == bind_args(ps, rs2)[t] by {
                if t < i {
                    assert(env_view(bound@)[t] == b0[t]);
                    assert(b0[t] == bind_args(ps, rs)[t]);
                }
            }
            assert(env_view(bound@) =~= bind_args(ps, rs2));
        }
        i = i + 1;
    }
    assert(av.take(i as int) =~= av);
    bound
}

/// The code of the expressions of a void helper's body one after the other,
/// with its parameters bound in `env` (see `emit_args` and `void_exprs`).
fn emit_void_body(cx: &Ctx, st: &EState, env: &Vec<(String, ArgCode)>, f: &FnDecl, fuel: usize) -> (r:
    Result<Vec<Instr>, GenError>)
    ensures
        match r {
            Ok(c) => emit_args(
                cx@,
                st@,
                env_view(env@),
                f@.body.map_values(
                    |s: StmtV|
                        match s {
                            StmtV::Expr(e) => e,
                            _ => ExprV::Num(0),
                        },
                ),
                fuel as nat,
            ) == Ok::<_, GenErrorV>(c@),
            Err(err) => emit_args(
                cx@,
                st@,
                env_view(env@),
                f@.body.map_values(
                    |s: StmtV|
                        match s {
                            StmtV::Expr(e) => e,
                            _ => ExprV::Num(0),
                        },
                ),
                fuel as nat,
            ) == Err::<Seq<Instr>, _>(err@),
        },
{
    let ghost ev = env_view(env@);
    let ghost ve = f@.body.map_values(
        |s: StmtV|
            match s {
                StmtV::Expr(e) => e,
                _ => ExprV::Num(0),
            },
    );
    proof {
        lemma_stmts_view(f.body@);
        assert(ve.take(0) =~= Seq::<ExprV>::empty());
    }
    let mut c: Vec<Instr> = Vec::new();
    let mut j: usize = 0;
    while j < f.body.len()
        invariant
            j <= f.body@.len(),
            ev == env_view(env@),
            ve.len() == f.body@.len(),
            ve == f@.body.map_values(
                |s: StmtV|
                    match s {
                        StmtV::Expr(e) => e,
                        _ => ExprV::Num(0),
                    },
            ),
            f@.body == stmts_view(f.body@),
            stmts_view(f.body@).len() == f.body@.len(),
            forall|t: int| 0 <= t < f.body@.len() ==> #[trigger] stmts_view(f.body@)[t] == stmt_view(f.body@[t]),
            emit_args(cx@, st@, ev, ve.take(j as int), fuel as nat) == Ok::<_, GenErrorV>(c@),
        decreases f.body@.len() - j,
    {
        assert(ve.take(j + 1).drop_last() =~= ve.take(j as int));
        assert(stmts_view(f.body@)[j as int] == stmt_view(f.body@[j as int]));
        let r = match &f.body[j] {
            Stmt::Expr(e) => {
                assert(ve[j as int] == e@);
                emit_expr_exec(cx, st, env, e, fuel)
            },
            _ => {
                assert(ve[j as int] == ExprV::Num(0));
                let z = vec![Instr::I32Const(0)];
                assert(z@ =~= seq![Instr::I32Const(0)]);
                Ok(z)
            },
        };
        let c2 = match r {
            Err(err) => {
                proof {
                    lemma_emit_args_err(cx@, st@, ev, ve, j + 1, fuel as nat);
                }
                return Err(err);
            },
            Ok(c2) => c2,
        };
        assert(emit_expr(cx@, st@, ev, ve[j as int], fuel as nat) == Ok::<_, GenErrorV>(c2@));
        let ghost c_old = c@;
        append(&mut c, c2);
        assert(ve.take(j + 1).last() == ve[j as int]);
        assert(emit_args(cx@, st@, ev, ve.take(j + 1), fuel as nat) == Ok::<_, GenErrorV>(c_old + c2@));
        j = j + 1;
    }
    assert(ve.take(j as int) =~= ve);
    Ok(c)
}

fn is_load_call_exec(e: &Expr) -> (r: bool)
    ensures
        r == is_load_call(e@),
{
    match e {
        Expr::Call { name, .. } => str_is(name, "load_i32"),
        _ => false,
    }
}

/// The code of a statement (see `emit_stmt`).
fn emit_stmt_exec(cx: &Ctx, st: &mut EState, s: &Stmt, fuel: usize) -> (r: Result<Vec<Instr>, GenError>)
    requires
        old(st).nlocals <= old(st).next,
    ensures
        final(st).nlocals <= final(st).next,
        match r {
            Ok(c) => emit_stmt(cx@, old(st)@, s@, fuel as nat) == Ok::<_, GenErrorV>((c@, final(st)@)),
            Err(err) => emit_stmt(cx@, old(st)@, s@, fuel as nat) == Err::<(Seq<Instr>, EStateV), _>(
                err@,
            ),
        },
    decreases s,
{
    let no_env: Vec<(String, ArgCode)> = Vec::new();
    assert(env_view(no_env@) =~= Seq::<(Seq<char>, GRes<Seq<Instr>>)>::empty());
    match s {
        Stmt::Let { name, expr, .. } => {
            if st.next >= 0xffff_ffff {
                return Err(GenError::TooLarge);
            }
            let idx = st.next as u32;
            let ghost l0 = names_view(st.locals@);
            st.locals.push((name.clone(), idx));
            st.next = st.next + 1;
            st.nlocals = st.nlocals + 1;
            assert(names_view(st.locals@) =~= l0.push((name@, idx)));
            let mut c = emit_expr_exec(cx, st, &no_env, expr, fuel)?;
            let ghost a = c@;
            c.push(Instr::LocalSet(idx));
            assert(c@ =~= a + seq![Instr::LocalSet(idx)]);
            Ok(c)
        },
        Stmt::Assign { name, expr } => {
            let idx = match find_last(&st.locals, name) {
                None => {
                    return Err(GenError::UndefAssign(name.clone()));
                },
                Some(k) => st.locals[k].1,
            };
            let mut c = emit_expr_exec(cx, st, &no_env, expr, fuel)?;
            let ghost a = c@;
            c.push(Instr::LocalSet(idx));
            assert(c@ =~= a + seq![Instr::LocalSet(idx)]);
            Ok(c)
        },
        Stmt::Expr(e) => {
            match e {
                Expr::Call { name, args } => {
                    match find_last_idx(cx.ivoid, name) {
                        Some(k) => {
                            let fi = cx.ivoid[k].1;
                            if fi >= cx.fns.len() || cx.fns[fi].params.len() != args.len() {
                                proof {
                                    lemma_exprs_view(args@);
                                }
                                return Err(GenError::ArityMismatch(name.clone()));
                            }
                            let env = bind_void_args(cx, st, &cx.fns[fi], args, fuel);
                            proof {
                                lemma_exprs_view(args@);
                                assert(pnames(cx.fns@[fi as int].params@) == param_names(
                                    cx@.fns[fi as int].params,
                                ));
                                assert(void_exprs(cx@.fns, fi as int) == cx.fns@[fi as int]@.body.map_values(
                                    |s: StmtV|
                                        match s {
                                            StmtV::Expr(e) => e,
                                            _ => ExprV::Num(0),
                                        },
                                ));
                            }
                            return emit_void_body(cx, st, &env, &cx.fns[fi], fuel);
                        },
                        None => {},
                    }
                },
                _ => {},
            }
            let mut c = emit_expr_exec(cx, st, &no_env, e, fuel)?;
            if is_load_call_exec(e) {
                let ghost a = c@;
                c.push(Instr::Drop);
                assert(c@ =~= a + seq![Instr::Drop]);
            }
            Ok(c)
        },
        Stmt::Return(opt) => {
            match opt {
                None => {
                    let c = vec![Instr::Return];
                    assert(c@ =~= seq![Instr::Return]);
                    Ok(c)
                },
                Some(e) => {
                    let mut c = emit_expr_exec(cx, st, &no_env, e, fuel)?;
                    let ghost a = c@;
                    c.push(Instr::Return);
                    assert(c@ =~= a + seq![Instr::Return]);
                    Ok(c)
                },
            }
        },
        Stmt::If { cond, then_body, else_body } => {
            let cc = emit_expr_exec(cx, st, &no_env, cond, fuel)?;
            let tc = emit_stmts_exec(cx, st, then_body, fuel)?;
            let ec = emit_stmts_exec(cx, st, else_body, fuel)?;
            let ghost a = cc@;
            let ghost b = tc@;
            let ghost d = ec@;
            let mut c = cc;
            c.push(Instr::If);
            append(&mut c, tc);
            if else_body.len() > 0 {
                c.push(Instr::Else);
                append(&mut c, ec);
            }
            c.push(Instr::End);
            proof {
                lemma_stmts_view(else_body@);
                if else_body@.len() > 0 {
                    assert(c@ =~= a + seq![Instr::If] + b + (seq![Instr::Else] + d) + seq![Instr::End]);
                } else {
                    assert(c@ =~= a + seq![Instr::If] + b + Seq::<Instr>::empty() + seq![Instr::End]);
                }
            }
            Ok(c)
        },
        Stmt::While { cond, body } => {
            let cc = emit_expr_exec(cx, st, &no_env, cond, fuel)?;
            let bc = emit_stmts_exec(cx, st, body, fuel)?;
            let ghost a = cc@;
            let ghost b = bc@;
            let mut c = vec![Instr::Block, Instr::Loop];
            append(&mut c, cc);
            c.push(Instr::I32Eqz);
            c.push(Instr::BrIf(1));
            append(&mut c, bc);
            c.push(Instr::Br(0));
            c.push(Instr::End);
            c.push(Instr::End);
            assert(c@ =~= seq![Instr::Block, Instr::Loop] + a + seq![Instr::I32Eqz, Instr::BrIf(1)]
                + b + seq![Instr::Br(0), Instr::End, Instr::End]);
            Ok(c)
        },
    }
}

/// An error in the code of some statements is an error of the whole list.
proof fn lemma_emit_stmts_err(cx: Cx, st: EStateV, sv: Seq<StmtV>, i: int, fuel: nat)
    requires
        0 <= i <= sv.len(),
        emit_stmts(cx, st, sv.take(i), fuel) is Err,
    ensures
        emit_stmts(cx, st, sv, fuel) == emit_stmts(cx, st, sv.take(i), fuel),
    decreases sv.len() - i,
{
    if i < sv.len() {
        assert(sv.take(i + 1).drop_last() =~= sv.take(i));
        lemma_emit_stmts_err(cx, st, sv, i + 1, fuel);
    } else {
        assert(sv.take(i) =~= sv);
    }
}

/// The code of statements one after the other (see `emit_stmts`).
fn emit_stmts_exec(cx: &Ctx, st: &mut EState, ss: &Vec<Stmt>, fuel: usize) -> (r: Result<
    Vec<Instr>,
    GenError,
>)
    requires
        old(st).nlocals <= old(st).next,
    ensures
        final(st).nlocals <= final(st).next,
        match r {
            Ok(c) => emit_stmts(cx@, old(st)@, stmts_view(ss@), fuel as nat) == Ok::<_, GenErrorV>(
                (c@, final(st)@),
            ),
            Err(err) => emit_stmts(cx@, old(st)@, stmts_view(ss@), fuel as nat) == Err::<
                (Seq<Instr>, EStateV),
                _,
            >(err@),
        },
    decreases ss,
{
    let ghost sv = stmts_view(ss@);
    let ghost st0 = st@;
    proof {
        lemma_stmts_view(ss@);
        assert(sv.take(0) =~= Seq::<StmtV>::empty());
    }
    let mut c: Vec<Instr> = Vec::new();
    let mut i: usize = 0;
    while i < ss.len()
        invariant
            i <= ss@.len(),
            sv == stmts_view(ss@),
            sv.len() == ss@.len(),
            forall|j: int| 0 <= j < ss@.len() ==> #[trigger] sv[j] == ss@[j]@,
            st.nlocals <= st.next,
            st0 == old(st)@,
            emit_stmts(cx@, st0, sv.take(i as int), fuel as nat) == Ok::<_, GenErrorV>((c@, st@)),
        decreases ss@.len() - i,
    {
        proof {
            assert(decreases_to!(*ss => ss@));
            assert(decreases_to!(ss@ => ss@[i as int]));
            assert(sv.take(i + 1).drop_last() =~= sv.take(i as int));
        }
        let c2 = match emit_stmt_exec(cx, st, &ss[i], fuel) {
            Err(err) => {
                proof {
                    lemma_emit_stmts_err(cx@, st0, sv, i + 1, fuel as nat);
                }
                return Err(err);
            },
            Ok(c2) => c2,
        };
        append(&mut c, c2);
        i = i + 1;
    }
    assert(sv.take(i as int) =~= sv);
    Ok(c)
}


fn peep_rule_exec(a: Instr, b: Instr) -> (r: Option<Vec<Instr>>)
    ensures
        match r {
            Some(v) => peep_rule(a, b) == Some(v@),
            None => peep_rule(a, b) is None,
        },
{
    let r: Option<Vec<Instr>> = match (a, b) {
        (Instr::LocalSet(x), Instr::LocalGet(y)) => if x == y {
            Some(vec![Instr::LocalTee(x)])
        } else {
            None
        },
        (Instr::I32Const(0), Instr::I32Eq) => Some(vec![Instr::I32Eqz]),
        (Instr::I32Const(0), Instr::I32Add) => Some(Vec::new()),
        (Instr::I32Const(0), Instr::I32Or) => Some(Vec::new()),
        (Instr::I32Const(0), Instr::I32Xor) => Some(Vec::new()),
        (Instr::I32Const(0), Instr::I32Shl) => Some(Vec::new()),
        (Instr::I32Const(0), Instr::I32ShrU) => Some(Vec::new()),
        (Instr::I32Const(0), Instr::I32ShrS) => Some(Vec::new()),
        (Instr::I32Const(1), Instr::I32Mul) => Some(Vec::new()),
        (Instr::I32Const(-1), Instr::I32And) => Some(Vec::new()),
        _ => None,
    };
    proof {
        if r is Some {
            assert(r->Some_0@ =~= peep_rule(a, b).unwrap());
        }
    }
    r
}

/// One pass of the peephole rules (see `peephole`).
fn peephole_exec(c: &Vec<Instr>) -> (r: Vec<Instr>)
    ensures
        r@ == peephole(c@),
{
    let mut out: Vec<Instr> = Vec::new();
    let mut i: usize = 0;
    assert(c@.skip(0) =~= c@);
    assert(peephole(c@) == out@ + peephole(c@.skip(0)));
    while i < c.len()
        invariant
            i <= c@.len(),
            peephole(c@) == out@ + peephole(c@.skip(i as int)),
        decreases c@.len() - i,
    {
        let ghost o0 = out@;
        let ghost rest = c@.skip(i as int);
        if i + 1 < c.len() {
            match peep_rule_exec(c[i], c[i + 1]) {
                Some(rep) => {
                    assert(rest[0] == c@[i as int] && rest[1] == c@[i + 1]);
                    assert(rest.skip(2) =~= c@.skip(i + 2));
                    let ghost rv = rep@;
                    append(&mut out, rep);
                    assert(o0 + (rv + peephole(rest.skip(2))) =~= out@ + peephole(c@.skip(i + 2)));
                    i = i + 2;
                    continue;
                },
                None => {},
            }
        }
        assert(rest[0] == c@[i as int]);
        assert(rest.skip(1) =~= c@.skip(i + 1));
        out.push(c[i]);
        assert(o0 + (seq![c@[i as int]] + peephole(rest.skip(1))) =~= out@ + peephole(c@.skip(i + 1)));
        i = i + 1;
    }
    assert(c@.skip(i as int) =~= Seq::<Instr>::empty());
    assert(out@ + Seq::<Instr>::empty() =~= out@);
    out
}

pub open spec fn bodies_view(v: Seq<Body>) -> Seq<BodyV> {
    v.map_values(|b: Body| b@)
}

/// The body of a function (see `body_of`).
fn body_exec(cx: &Ctx, f: &FnDecl, fuel: usize) -> (r: Result<Body, GenError>)
    ensures
        match r {
            Ok(b) => body_of(cx@, f@, fuel as nat) == Ok::<_, GenErrorV>(b@),
            Err(err) => body_of(cx@, f@, fuel as nat) == Err::<BodyV, _>(err@),
        },
{
    let ghost ps = f@.params;
    let mut locals: Vec<(String, u32)> = Vec::new();
    let mut i: usize = 0;
    while i < f.params.len()
        invariant
            i <= f.params@.len(),
            ps == f@.params,
            ps.len() == f.params@.len(),
            names_view(locals@) =~= param_locals(ps).take(i as int),
        decreases f.params@.len() - i,
    {
        let ghost l0 = names_view(locals@);
        locals.push((f.params[i].0.clone(), #[verifier::truncate] (i as u32)));
        assert(names_view(locals@) =~= l0.push((ps[i as int].0, i as u32)));
        i = i + 1;
    }
    assert(names_view(locals@) =~= param_locals(ps));
    let mut st = EState { locals, next: f.params.len() as u64, nlocals: 0 };
    assert(st@ == EStateV { locals: param_locals(ps), next: ps.len(), nlocals: 0 });
    let mut c = emit_stmts_exec(cx, &mut st, &f.body, fuel)?;
    let ghost c0 = c@;
    c.push(Instr::End);
    assert(c@ =~= c0 + seq![Instr::End]);
    let code = peephole_exec(&c);
    let groups: Vec<(u32, ValKind)> = if st.nlocals > 0 {
        let g = vec![(#[verifier::truncate] (st.nlocals as u32), ValKind::I32)];
        assert(g@ =~= seq![(st.nlocals as u32, ValKind::I32)]);
        g
    } else {
        let g: Vec<(u32, ValKind)> = Vec::new();
        assert(g@ =~= Seq::<(u32, ValKind)>::empty());
        g
    };
    Ok(Body { locals: groups, code })
}


/// The bodies of the emitted functions (see `bodies_of`).
fn bodies_exec(cx: &Ctx, em: &Vec<usize>, fuel: usize) -> (r: Result<Vec<Body>, GenError>)
    requires
        forall|j: int| 0 <= j < em@.len() ==> #[trigger] em@[j] < cx.fns@.len(),
    ensures
        match r {
            Ok(v) => bodies_of(cx@, ivec(em@), em@.len() as int, fuel as nat) == Ok::<_, GenErrorV>(
                bodies_view(v@),
            ),
            Err(err) => bodies_of(cx@, ivec(em@), em@.len() as int, fuel as nat) == Err::<
                Seq<BodyV>,
                _,
            >(err@),
        },
{
    let mut out: Vec<Body> = Vec::new();
    assert(bodies_view(out@) =~= Seq::<BodyV>::empty());
    let mut j: usize = 0;
    while j < em.len()
        invariant
            j <= em@.len(),
            forall|t: int| 0 <= t < em@.len() ==> #[trigger] em@[t] < cx.fns@.len(),
            bodies_of(cx@, ivec(em@), j as int, fuel as nat) == Ok::<_, GenErrorV>(bodies_view(out@)),
        decreases em@.len() - j,
    {
        assert(cx@.fns[ivec(em@)[j as int]] == cx.fns@[em@[j as int] as int]@);
        let b = match body_exec(cx, &cx.fns[em[j]], fuel) {
            Err(err) => {
                proof {
                    lemma_bodies_err(cx@, ivec(em@), j + 1, em@.len() as int, fuel as nat);
                }
                return Err(err);
            },
            Ok(b) => b,
        };
        let ghost o0 = bodies_view(out@);
        out.push(b);
        assert(bodies_view(out@) =~= o0.push(b@));
        j = j + 1;
    }
    Ok(out)
}

/// An error in some bodies is an error of all of them.
proof fn lemma_bodies_err(cx: Cx, em: Seq<int>, i: int, n: int, fuel: nat)
    requires
        0 <= i <= n,
        bodies_of(cx, em, i, fuel) is Err,
    ensures
        bodies_of(cx, em, n, fuel) == bodies_of(cx, em, i, fuel),
    decreases n - i,
{
    if i < n {
        lemma_bodies_err(cx, em, i + 1, n, fuel);
    }
}

/// Compiles a program for `target` (with `_start` exported where
/// `export_start`) to the bytes of a WebAssembly module (see
/// `spec_compile`).
pub fn compile(prog: Program, target: Target, export_start: bool) -> (r: Result<Vec<u8>, GenError>)
    ensures
        match r {
            Ok(b) => spec_compile(prog@, target, export_start) == Ok::<_, GenErrorV>(b@),
            Err(e) => spec_compile(prog@, target, export_start) == Err::<Seq<u8>, _>(e@),
        },
{
    let ghost pv = with_start(prog@);
    let mut prog = prog;
    ensure_start(&mut prog);
    assert(prog@ == pv);
    assert(prog@.consts == consts_view(prog.consts@));
    assert(prog@.fns == fns_view(prog.fns@));
    let consts = fold_consts_exec(&prog.consts)?;
    let classified = classify_exec(&prog.fns);
    let (imap, ivoid) = match classified {
        Err(e) => {
            return Err(e);
        },
        Ok(x) => x,
    };
    let nfns = prog.fns.len();
    assert(imap@.len() + ivoid@.len() <= nfns);
    let (cands, fnmap) = candidates_exec(&prog.fns, &imap, &ivoid);
    let fuel: usize = imap.len() + ivoid.len();
    let no_index: Vec<(String, u32)> = Vec::new();
    let cx0 = Ctx { fns: &prog.fns, imap: &imap, ivoid: &ivoid, consts: &consts, findex: &no_index };
    let ghost fv = fns_view(prog.fns@);
    let ghost cxs0 = Cx {
        fns: pv.fns,
        imap: idx_view(imap@),
        ivoid: idx_view(ivoid@),
        consts: names_view(consts@),
        findex: Seq::empty(),
    };
    assert(names_view(no_index@) =~= Seq::<(Seq<char>, u32)>::empty());
    assert(cx0@ == cxs0);
    let roots = roots_exec(&prog.fns, &cands, &fnmap, target, export_start);
    let live = live_exec(&cx0, &fnmap, roots, cands.len(), fuel);
    let em = emitted_exec(&prog.fns, &cands, &live);
    let findex = findex_exec(&prog.fns, &em);
    let cx = Ctx { fns: &prog.fns, imap: &imap, ivoid: &ivoid, consts: &consts, findex: &findex };
    assert(cx@ == Cx { findex: names_view(findex@), ..cxs0 });
    let (keys, fidx) = types_exec(&prog.fns, &em);
    let ghost sm = spec_module(prog@, target, export_start);
    let exports = match exports_exec(&prog.fns, &em, &findex, target, export_start) {
        Err(e) => {
            assert(sm == Err::<ModuleIrV, GenErrorV>(e@));
            return Err(e);
        },
        Ok(x) => x,
    };
    let bodies = match bodies_exec(&cx, &em, fuel) {
        Err(e) => {
            assert(sm == Err::<ModuleIrV, GenErrorV>(e@));
            return Err(e);
        },
        Ok(x) => x,
    };
    let m = ModuleIr {
        types: wasm_types_exec(&keys),
        imports: Vec::new(),
        funcs: fidx,
        memory_pages: 32,
        exports,
        bodies,
        data: Vec::new(),
    };
    proof {
        assert(m@.imports =~= Seq::<ImportV>::empty());
        assert(m@.data =~= Seq::<(u32, Seq<u8>)>::empty());
        assert(m@.types =~= ftypes_view(m.types@));
        assert(m@.exports =~= exports_view(m.exports@));
        assert(m@.bodies =~= bodies_view(m.bodies@));
        assert(sm == Ok::<_, GenErrorV>(m@));
    }
    match encode_module(&m) {
        Some(b) => Ok(b),
        None => Err(GenError::TooLarge),
    }
}

} // verus!
