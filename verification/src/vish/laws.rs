//! Properties of `wasmgen::compile`: its output is a WebAssembly binary
//! whose first export is the memory; a program without exports gets the
//! entry point of its target exported; a function marked `@inline` compiles
//! only where it can be inlined; the peephole pass never lengthens code and
//! each of its rewrites keeps what the code does; adding `_start` is done
//! once; the parser's two operator tables agree; and an operator token
//! parses to the operator it spells, whose folded value and code compute
//! what the token means.
use vstd::prelude::*;
use crate::compile_laws::lemma_module_bytes_start;
use crate::vish::lex::TokV;
use crate::vish::parse::{
    BinOp, ExprV, FnDeclV, ParseErrorV, ProgramV, TypeName, spec_expr, spec_prec, spec_to_op,
};
use crate::vish::wasmgen::{
    Cx, EStateV, GenErrorV, apply_op, binop_instr, emit_expr, fold_const_spec, lookup, Target, candidates, classify, emitted_of, exports_spec, findex_of, fn_names, fnmap_of,
    fold_consts, func_exports, is_entry, is_expr_list, is_return_expr, live_iter, peep_rule, peephole, roots_of,
    spec_compile, spec_module, start_fn, with_start,
};
use crate::wasm::{ExportKind, ExportV, Instr, header};

verus! {

/// What a program compiles to is a WebAssembly binary: it starts with the
/// magic number `\0asm` and version 1.
pub proof fn law_output_is_a_wasm_binary(prog: ProgramV, target: Target, export_start: bool)
    requires
        spec_compile(prog, target, export_start) is Ok,
    ensures
        spec_compile(prog, target, export_start)->Ok_0.len() >= 8,
        spec_compile(prog, target, export_start)->Ok_0.take(8) == header(),
{
    lemma_module_bytes_start(spec_module(prog, target, export_start)->Ok_0);
}

/// The memory is always exported, as the first export, under `memory`.
pub proof fn law_memory_is_exported_first(prog: ProgramV, target: Target, export_start: bool)
    requires
        spec_module(prog, target, export_start) is Ok,
    ensures
        spec_module(prog, target, export_start)->Ok_0.exports.len() >= 1,
        spec_module(prog, target, export_start)->Ok_0.exports[0] == (ExportV {
            name: "memory"@,
            kind: ExportKind::Memory,
            index: 0,
        }),
{
}

proof fn lemma_candidates_in_range(
    fns: Seq<FnDeclV>,
    imap: Seq<(Seq<char>, int)>,
    ivoid: Seq<(Seq<char>, int)>,
    k: int,
)
    requires
        k <= fns.len(),
    ensures
        forall|j: int|
            0 <= j < candidates(fns, imap, ivoid, k).len() ==> 0 <= #[trigger] candidates(
                fns,
                imap,
                ivoid,
                k,
            )[j] < fns.len(),
    decreases k,
{
    if k > 0 {
        lemma_candidates_in_range(fns, imap, ivoid, k - 1);
        let rest = candidates(fns, imap, ivoid, k - 1);
        let c = candidates(fns, imap, ivoid, k);
        assert forall|j: int| 0 <= j < c.len() implies 0 <= #[trigger] c[j] < fns.len() by {
            if j < rest.len() {
                assert(c[j] == rest[j]);
            }
        }
    }
}

proof fn lemma_emitted_in(fns: Seq<FnDeclV>, cands: Seq<int>, live: Set<Seq<char>>, k: int)
    requires
        k <= cands.len(),
    ensures
        forall|j: int|
            0 <= j < emitted_of(fns, cands, live, k).len() ==> exists|c: int|
                0 <= c < cands.len() && #[trigger] emitted_of(fns, cands, live, k)[j] == cands[c],
    decreases k,
{
    if k > 0 {
        lemma_emitted_in(fns, cands, live, k - 1);
        let rest = emitted_of(fns, cands, live, k - 1);
        assert forall|j: int| 0 <= j < emitted_of(fns, cands, live, k).len() implies exists|c: int|
            0 <= c < cands.len() && #[trigger] emitted_of(fns, cands, live, k)[j] == cands[c] by {
            if j < rest.len() {
                assert(emitted_of(fns, cands, live, k)[j] == rest[j]);
            } else {
                assert(emitted_of(fns, cands, live, k)[j] == cands[k - 1]);
            }
        }
    }
}

proof fn lemma_no_func_exports(
    fns: Seq<FnDeclV>,
    em: Seq<int>,
    findex: Seq<(Seq<char>, u32)>,
    k: int,
)
    requires
        k <= em.len(),
        forall|j: int| 0 <= j < em.len() ==> 0 <= #[trigger] em[j] < fns.len(),
        forall|f: int| 0 <= f < fns.len() ==> !(#[trigger] fns[f]).exported,
    ensures
        func_exports(fns, em, findex, k).len() == 0,
    decreases k,
{
    if k > 0 {
        assert(0 <= em[k - 1] < fns.len());
        lemma_no_func_exports(fns, em, findex, k - 1);
    }
}

/// A program that exports nothing gets the entry point of its target
/// exported beside its memory: `main` on the web, `_start` under WASI.
pub proof fn law_entry_point_exported_by_default(prog: ProgramV, target: Target)
    requires
        forall|f: int| 0 <= f < prog.fns.len() ==> !(#[trigger] prog.fns[f]).exported,
        spec_module(prog, target, false) is Ok,
    ensures
        spec_module(prog, target, false)->Ok_0.exports.len() == 2,
        spec_module(prog, target, false)->Ok_0.exports[1].name == (match target {
            Target::Web => "main"@,
            Target::Wasi => "_start"@,
        }),
        spec_module(prog, target, false)->Ok_0.exports[1].kind == ExportKind::Func,
{
    let p = with_start(prog);
    assert forall|f: int| 0 <= f < p.fns.len() implies !(#[trigger] p.fns[f]).exported by {
        if p.fns != prog.fns {
            assert(p.fns == seq![start_fn()] + prog.fns);
            if f > 0 {
                assert(p.fns[f] == prog.fns[f - 1]);
            }
        }
    }
    let consts = fold_consts(p.consts, 0, Seq::empty())->Ok_0;
    let (imap, ivoid) = classify(p.fns, 0, Seq::empty(), Seq::empty())->Ok_0;
    let cands = candidates(p.fns, imap, ivoid, p.fns.len() as int);
    let fnmap = fnmap_of(p.fns, cands);
    let fuel = imap.len() + ivoid.len();
    let cx0 = Cx { fns: p.fns, imap, ivoid, consts, findex: Seq::empty() };
    let roots = roots_of(p.fns, cands, fnmap, target, false);
    let live = live_iter(cx0, fnmap, roots, cands.len(), fuel);
    let em = emitted_of(p.fns, cands, live, cands.len() as int);
    let findex = findex_of(fn_names(p.fns, em)).0;
    lemma_candidates_in_range(p.fns, imap, ivoid, p.fns.len() as int);
    lemma_emitted_in(p.fns, cands, live, cands.len() as int);
    assert forall|j: int| 0 <= j < em.len() implies 0 <= #[trigger] em[j] < p.fns.len() by {
        let c = choose|c: int| 0 <= c < cands.len() && em[j] == cands[c];
        assert(0 <= cands[c] < p.fns.len());
    }
    lemma_no_func_exports(p.fns, em, findex, em.len() as int);
    let base = seq![ExportV { name: "memory"@, kind: ExportKind::Memory, index: 0 }] + func_exports(
        p.fns,
        em,
        findex,
        em.len() as int,
    );
    assert(base.len() == 1);
    assert(exports_spec(p.fns, em, findex, target, false) is Ok);
}

/// Whether a function can be expanded in place: a non-exported function
/// other than an entry point, of type `i32` with a body of one
/// `return <expr>`, or of type `void` with a body of expression statements.
pub open spec fn inlineable(f: FnDeclV) -> bool {
    !f.exported && !is_entry(f.name) && ((f.ret == TypeName::I32 && is_return_expr(f.body)) || (
    f.ret == TypeName::Void && is_expr_list(f.body)))
}

proof fn lemma_classify_ok(
    fns: Seq<FnDeclV>,
    k: int,
    imap: Seq<(Seq<char>, int)>,
    ivoid: Seq<(Seq<char>, int)>,
)
    requires
        0 <= k,
        classify(fns, k, imap, ivoid) is Ok,
    ensures
        forall|j: int| k <= j < fns.len() && (#[trigger] fns[j]).inline ==> inlineable(fns[j]),
    decreases fns.len() - k,
{
    if k < fns.len() {
        let f = fns[k];
        if !f.exported && !is_entry(f.name) && f.ret == TypeName::I32 && is_return_expr(f.body) {
            lemma_classify_ok(fns, k + 1, imap.push((f.name, k)), ivoid);
        } else if !f.exported && !is_entry(f.name) && f.ret == TypeName::Void && is_expr_list(
            f.body,
        ) {
            lemma_classify_ok(fns, k + 1, imap, ivoid.push((f.name, k)));
        } else {
            lemma_classify_ok(fns, k + 1, imap, ivoid);
        }
    }
}

/// A function marked `@inline` must be inlineable: where a program
/// compiles, each of its `@inline` functions is.
pub proof fn law_inline_functions_are_inlineable(
    prog: ProgramV,
    target: Target,
    export_start: bool,
)
    requires
        spec_module(prog, target, export_start) is Ok,
    ensures
        forall|k: int|
            0 <= k < prog.fns.len() && (#[trigger] prog.fns[k]).inline ==> inlineable(prog.fns[k]),
{
    let p = with_start(prog);
    lemma_classify_ok(p.fns, 0, Seq::empty(), Seq::empty());
    assert forall|k: int| 0 <= k < prog.fns.len() && (#[trigger] prog.fns[k]).inline implies inlineable(
        prog.fns[k],
    ) by {
        if p.fns != prog.fns {
            assert(p.fns == seq![start_fn()] + prog.fns);
            assert(p.fns[k + 1] == prog.fns[k]);
        } else {
            assert(p.fns[k] == prog.fns[k]);
        }
    }
}

/// The peephole pass never makes code longer.
pub proof fn law_peephole_never_lengthens(c: Seq<crate::wasm::Instr>)
    ensures
        peephole(c).len() <= c.len(),
    decreases c.len(),
{
    if c.len() > 0 {
        if c.len() >= 2 && crate::vish::wasmgen::peep_rule(c[0], c[1]) is Some {
            law_peephole_never_lengthens(c.skip(2));
        } else {
            law_peephole_never_lengthens(c.skip(1));
        }
    }
}

/// A program with `_start` added has a `_start`, and adding it again
/// changes nothing.
pub proof fn law_start_added_once(prog: ProgramV)
    ensures
        exists|k: int|
            0 <= k < with_start(prog).fns.len() && (#[trigger] with_start(prog).fns[k]).name
                == "_start"@,
        with_start(with_start(prog)) == with_start(prog),
{
    let p = with_start(prog);
    if exists|k: int| 0 <= k < prog.fns.len() && (#[trigger] prog.fns[k]).name == "_start"@ {
    } else {
        assert(p.fns[0] == start_fn());
        assert(p.fns[0].name == "_start"@);
    }
}

/// The binary operators are exactly the tokens with a binding strength, so
/// the parser never meets a token it ranks as an operator but cannot
/// turn into one.
pub proof fn law_operator_tables_agree(t: TokV)
    ensures
        spec_to_op(t) is Some <==> spec_prec(t) is Some,
{
}

/// What an `i32` instruction of the constant-expression subset does to the
/// value stack (top last), as WebAssembly defines it: `add`, `sub`, `mul`
/// wrap; shifts take the count modulo 32 (`shr_s` keeps the sign, `shr_u`
/// shifts in zeros); comparisons are signed and give 1 or 0, and `eqz`
/// gives 1 exactly for 0.
pub open spec fn i32_step(i: Instr, s: Seq<i32>) -> Seq<i32> {
    match i {
        Instr::I32Const(n) => s.push(n),
        Instr::I32Eqz => if s.len() < 1 {
            s
        } else {
            s.drop_last().push(if s.last() == 0 { 1i32 } else { 0i32 })
        },
        _ => if s.len() < 2 {
            s
        } else {
            let a = s[s.len() - 2];
            let b = s[s.len() - 1];
            let rest = s.drop_last().drop_last();
            match i {
                Instr::I32Add => rest.push(a.wrapping_add(b)),
                Instr::I32Sub => rest.push(a.wrapping_sub(b)),
                Instr::I32Mul => rest.push(a.wrapping_mul(b)),
                Instr::I32And => rest.push(a & b),
                Instr::I32Or => rest.push(a | b),
                Instr::I32Xor => rest.push(a ^ b),
                Instr::I32Shl => rest.push(a.wrapping_shl((b & 31) as u32)),
                Instr::I32ShrS => rest.push(a >> ((b & 31) as u32)),
                Instr::I32ShrU => rest.push((((a as u32) >> ((b & 31) as u32)) as i32)),
                Instr::I32Eq => rest.push(if a == b { 1i32 } else { 0i32 }),
                Instr::I32Ne => rest.push(if a != b { 1i32 } else { 0i32 }),
                Instr::I32LtS => rest.push(if a < b { 1i32 } else { 0i32 }),
                Instr::I32LeS => rest.push(if a <= b { 1i32 } else { 0i32 }),
                Instr::I32GtS => rest.push(if a > b { 1i32 } else { 0i32 }),
                Instr::I32GeS => rest.push(if a >= b { 1i32 } else { 0i32 }),
                _ => s,
            }
        },
    }
}

/// The value stack after running `c` from `s`.
pub open spec fn i32_run(c: Seq<Instr>, s: Seq<i32>) -> Seq<i32>
    decreases c.len(),
{
    if c.len() == 0 {
        s
    } else {
        i32_run(c.drop_first(), i32_step(c[0], s))
    }
}

proof fn lemma_run_append(a: Seq<Instr>, b: Seq<Instr>, s: Seq<i32>)
    ensures
        i32_run(a + b, s) == i32_run(b, i32_run(a, s)),
    decreases a.len(),
{
    if a.len() > 0 {
        assert((a + b).drop_first() =~= a.drop_first() + b);
        lemma_run_append(a.drop_first(), b, i32_step(a[0], s));
    } else {
        assert(a + b =~= b);
    }
}

/// Whether folding gives up on `e`: it calls a function or reads a name
/// that is not one of the constants `env`.
pub open spec fn not_constant(e: ExprV, env: Seq<(Seq<char>, i32)>) -> bool
    decreases e,
{
    match e {
        ExprV::Num(_) => false,
        ExprV::Var(n) => lookup(env, n) is None,
        ExprV::Call { .. } => true,
        ExprV::Bin { l, r, .. } => not_constant(*l, env) || not_constant(*r, env),
    }
}

/// Constant folding agrees with the code: an expression folds exactly when
/// it calls nothing and reads only constants, and then the code emitted for
/// it (with the same constants) leaves the folded value on the stack.
pub proof fn law_folding_agrees_with_code(
    e: ExprV,
    cx: Cx,
    st: EStateV,
    fuel: nat,
    s: Seq<i32>,
)
    ensures
        fold_const_spec(e, cx.consts) is None <==> not_constant(e, cx.consts),
        fold_const_spec(e, cx.consts) matches Some(v) ==> (emit_expr(cx, st, Seq::empty(), e, fuel)
            matches Ok(c) && i32_run(c, s) == s.push(v)),
    decreases e,
{
    match e {
        ExprV::Num(n) => {
            let c = seq![Instr::I32Const(n)];
            assert(i32_run(c.drop_first(), s.push(n)) == s.push(n));
        },
        ExprV::Var(n) => {
            assert(lookup(Seq::<(Seq<char>, Result<Seq<Instr>, GenErrorV>)>::empty(), n) is None);
            if let Some(v) = lookup(cx.consts, n) {
                let c = seq![Instr::I32Const(v)];
                assert(i32_run(c.drop_first(), s.push(v)) == s.push(v));
            }
        },
        ExprV::Call { .. } => {},
        ExprV::Bin { op, l, r } => {
            law_folding_agrees_with_code(*l, cx, st, fuel, s);
            if let Some(a) = fold_const_spec(*l, cx.consts) {
                law_folding_agrees_with_code(*r, cx, st, fuel, s.push(a));
                if let Some(b) = fold_const_spec(*r, cx.consts) {
                    let cl = emit_expr(cx, st, Seq::empty(), *l, fuel)->Ok_0;
                    let cr = emit_expr(cx, st, Seq::empty(), *r, fuel)->Ok_0;
                    let ci = seq![binop_instr(op)];
                    lemma_run_append(cl + cr, ci, s);
                    lemma_run_append(cl, cr, s);
                    let s2 = s.push(a).push(b);
                    assert(s2.drop_last().drop_last() =~= s);
                    assert(i32_step(binop_instr(op), s2) == s.push(apply_op(op, a, b)));
                    assert(i32_run(ci.drop_first(), i32_step(ci[0], s2)) == s.push(apply_op(op, a, b)));
                }
            }
        },
    }
}

/// What an instruction does to a machine state: the value stack (top last)
/// as `i32_step` says, and the locals, which `local.get`, `local.set` and
/// `local.tee` read and write.
pub open spec fn m_step(i: Instr, m: (Seq<i32>, Map<u32, i32>)) -> (Seq<i32>, Map<u32, i32>) {
    match i {
        Instr::LocalGet(x) => (m.0.push(m.1[x]), m.1),
        Instr::LocalSet(x) => if m.0.len() >= 1 {
            (m.0.drop_last(), m.1.insert(x, m.0.last()))
        } else {
            m
        },
        Instr::LocalTee(x) => if m.0.len() >= 1 {
            (m.0, m.1.insert(x, m.0.last()))
        } else {
            m
        },
        _ => (i32_step(i, m.0), m.1),
    }
}

/// The machine state after running `c` from `m`.
pub open spec fn m_run(c: Seq<Instr>, m: (Seq<i32>, Map<u32, i32>)) -> (Seq<i32>, Map<u32, i32>)
    decreases c.len(),
{
    if c.len() == 0 {
        m
    } else {
        m_run(c.drop_first(), m_step(c[0], m))
    }
}

/// Every rewrite of the peephole pass keeps what the code does: where a
/// pair of instructions is replaced, running the replacement from any
/// state with a value on the stack leaves the same stack and locals as
/// running the pair.
pub proof fn law_peephole_rewrites_keep_meaning(
    a: Instr,
    b: Instr,
    s: Seq<i32>,
    locals: Map<u32, i32>,
)
    requires
        s.len() >= 1,
        peep_rule(a, b) is Some,
    ensures
        m_run(peep_rule(a, b)->Some_0, (s, locals)) == m_run(seq![a, b], (s, locals)),
{
    let w = peep_rule(a, b)->Some_0;
    let m = (s, locals);
    let v = s.last();
    let pair = seq![a, b];
    reveal_with_fuel(m_run, 3);
    assert(pair.drop_first() =~= seq![b]);
    assert(seq![b].drop_first() =~= Seq::<Instr>::empty());
    assert(m_run(pair, m) == m_step(b, m_step(a, m)));
    if w.len() == 1 {
        assert(w.drop_first() =~= Seq::<Instr>::empty());
        assert(m_run(w, m) == m_step(w[0], m));
    }
    let ga = m_step(a, m);
    match (a, b) {
        (Instr::LocalSet(x), Instr::LocalGet(y)) => {
            assert(ga == (s.drop_last(), locals.insert(x, v)));
            assert(s.drop_last().push(v) =~= s);
            assert(m_step(b, ga) == (s, locals.insert(x, v)));
            assert(m_run(w, m) == (s, locals.insert(x, v)));
        },
        (Instr::I32Const(c), _) => {
            let s1 = s.push(c);
            assert(ga == (s1, locals));
            assert(s1[s1.len() - 2] == v);
            assert(s1[s1.len() - 1] == c);
            assert(s1.drop_last().drop_last() =~= s.drop_last());
            assert(s.drop_last().push(v) =~= s);
            if w.len() == 0 {
                assert(m_run(w, m) == m);
                if c == 0 {
                    assert((0i32 & 31i32) as u32 == 0u32) by (bit_vector);
                    assert(v.wrapping_add(0) == v);
                    assert(v | 0 == v) by (bit_vector);
                    assert(v ^ 0 == v) by (bit_vector);
                    assert(v << 0u32 == v) by (bit_vector);
                    assert(v.wrapping_shl(0u32) == v);
                    assert(v >> 0u32 == v) by (bit_vector);
                    assert((((v as u32) >> 0u32) as i32) == v) by (bit_vector);
                    assert(i32_step(b, s1) =~= s);
                } else if c == 1 {
                    assert(v.wrapping_mul(1) == v);
                    assert(i32_step(b, s1) =~= s);
                } else {
                    assert(v & -1i32 == v) by (bit_vector);
                    assert(i32_step(b, s1) =~= s);
                }
                assert(m_step(b, ga) == m);
            } else {
                assert(i32_step(b, s1) =~= s.drop_last().push(if v == 0 { 1i32 } else { 0i32 }));
                assert(i32_step(Instr::I32Eqz, s) =~= s.drop_last().push(if v == 0 { 1i32 } else { 0i32 }));
            }
        },
        _ => {},
    }
}

/// The operator a binary operator token spells.
pub open spec fn spelled_op(tk: TokV) -> Option<BinOp> {
    match tk {
        TokV::Plus => Some(BinOp::Add),
        TokV::Minus => Some(BinOp::Sub),
        TokV::Star => Some(BinOp::Mul),
        TokV::Amp => Some(BinOp::And),
        TokV::Pipe => Some(BinOp::Or),
        TokV::Caret => Some(BinOp::Xor),
        TokV::Shl => Some(BinOp::Shl),
        TokV::Shr => Some(BinOp::Shr),
        TokV::EqEq => Some(BinOp::Eq),
        TokV::Ne => Some(BinOp::Ne),
        TokV::Lt => Some(BinOp::Lt),
        TokV::Le => Some(BinOp::Le),
        TokV::Gt => Some(BinOp::Gt),
        TokV::Ge => Some(BinOp::Ge),
        _ => None,
    }
}

/// The value of `a tk b` for a binary operator token `tk`, as the language
/// defines it on `i32`: `+ - *` wrap, `& | ^` are bitwise, `<< >>` take
/// the count modulo 32 (`>>` keeps the sign), and the comparisons are
/// signed and give 1 when they hold, else 0.
pub open spec fn token_value(tk: TokV, a: i32, b: i32) -> Option<i32> {
    match tk {
        TokV::Plus => Some(a.wrapping_add(b)),
        TokV::Minus => Some(a.wrapping_sub(b)),
        TokV::Star => Some(a.wrapping_mul(b)),
        TokV::Amp => Some(a & b),
        TokV::Pipe => Some(a | b),
        TokV::Caret => Some(a ^ b),
        TokV::Shl => Some(a.wrapping_shl((b & 31) as u32)),
        TokV::Shr => Some(a >> ((b & 31) as u32)),
        TokV::EqEq => Some(if a == b { 1i32 } else { 0i32 }),
        TokV::Ne => Some(if a != b { 1i32 } else { 0i32 }),
        TokV::Lt => Some(if a < b { 1i32 } else { 0i32 }),
        TokV::Le => Some(if a <= b { 1i32 } else { 0i32 }),
        TokV::Gt => Some(if a > b { 1i32 } else { 0i32 }),
        TokV::Ge => Some(if a >= b { 1i32 } else { 0i32 }),
        _ => None,
    }
}

/// An operator token between two numbers parses to the operator it spells,
/// and the expression has the value that the token means: folding it gives
/// that value, and so does the code emitted for it.
pub proof fn law_operator_tokens_mean_what_they_spell(
    tk: TokV,
    a: i32,
    b: i32,
    cx: Cx,
    st: EStateV,
    fuel: nat,
    s: Seq<i32>,
)
    requires
        spelled_op(tk) is Some,
    ensures
        ({
            let t = seq![TokV::Num(a), tk, TokV::Num(b)];
            let e = ExprV::Bin {
                op: spelled_op(tk)->Some_0,
                l: Box::new(ExprV::Num(a)),
                r: Box::new(ExprV::Num(b)),
            };
            &&& spec_expr(t, 0, 0) == Ok::<_, ParseErrorV>((e, 3int))
            &&& fold_const_spec(e, cx.consts) == token_value(tk, a, b)
            &&& emit_expr(cx, st, Seq::empty(), e, fuel) matches Ok(c) && i32_run(c, s) == s.push(
                token_value(tk, a, b)->Some_0,
            )
        }),
{
    let t = seq![TokV::Num(a), tk, TokV::Num(b)];
    let op = spelled_op(tk)->Some_0;
    let e = ExprV::Bin { op, l: Box::new(ExprV::Num(a)), r: Box::new(ExprV::Num(b)) };
    let pv = spec_prec(tk)->Some_0;
    assert(spec_to_op(tk) == Some(op));
    assert(spec_prec(tk) is Some);
    assert(crate::vish::parse::spec_primary(t, 2) == Ok::<_, ParseErrorV>((ExprV::Num(b), 3int)));
    assert(crate::vish::parse::spec_expr_rest(t, 3, (pv + 1) as u8, ExprV::Num(b)) == Ok::<
        _,
        ParseErrorV,
    >((ExprV::Num(b), 3int)));
    assert(spec_expr(t, 2, (pv + 1) as u8) == Ok::<_, ParseErrorV>((ExprV::Num(b), 3int)));
    assert(crate::vish::parse::spec_expr_rest(t, 3, 0, e) == Ok::<_, ParseErrorV>((e, 3int)));
    assert(crate::vish::parse::spec_expr_rest(t, 1, 0, ExprV::Num(a)) == Ok::<_, ParseErrorV>(
        (e, 3int),
    ));
    assert(crate::vish::parse::spec_primary(t, 0) == Ok::<_, ParseErrorV>((ExprV::Num(a), 1int)));
    assert(fold_const_spec(ExprV::Num(a), cx.consts) == Some(a));
    assert(fold_const_spec(ExprV::Num(b), cx.consts) == Some(b));
    assert(fold_const_spec(e, cx.consts) == Some(apply_op(op, a, b)));
    law_folding_agrees_with_code(e, cx, st, fuel, s);
}

} // verus!
