//! Properties of compiling a source text: what comes out is a WebAssembly
//! binary, and a program compiles only with an `export fn main(): i32`,
//! which its module exports beside `__alloc`, its memory and the
//! `env.print` import; each binary operator token parses to the operator
//! it spells, and the code of an operator (arithmetic, comparison, `&&`,
//! `||`, `!`) on literal operands computes what the operator means.
use vstd::prelude::*;
use crate::ast::{BinOp, ExprV, FunctionV, ItemV, ProgramV, StmtV, Type};
use crate::codegen::{
    CodegenErrorV, LStateV, SigV, alloc_body, alloc_export, data_end, defined, exports_of, find_main,
    heap_cell, memory_export, print_import, spec_emit, spec_lower_expr, spec_lower_module, spec_lower_stmt,
};
use crate::lexer::{TokK, TokenV};
use crate::parser::{
    bin, spec_parse_add_sub, spec_parse_and, spec_parse_compare, spec_parse_expr, spec_parse_mul_div,
    spec_parse_or, spec_parse_primary, spec_parse_source, spec_parse_unary, PRes,
};
use crate::vish::laws::{i32_run, i32_step};
use crate::wasm::{ExportKind, ExportV, Instr, ModuleIrV, header, module_bytes};
use crate::spec_compile;

verus! {

/// The heap that `__alloc` hands out lies past the string data: the last
/// function body is the allocator, whose cell (the next free address) sits
/// at a multiple of 4 at or after the end of the last string, unless that
/// end is within 16 bytes of the top of the address space.
pub proof fn law_heap_lies_above_string_data(p: ProgramV)
    requires
        spec_lower_module(p) is Ok,
    ensures
        ({
            let m = spec_lower_module(p)->Ok_0;
            &&& m.bodies.len() >= 1
            &&& m.bodies.last() == alloc_body(heap_cell(m.data))
            &&& heap_cell(m.data) % 4 == 0
            &&& data_end(m.data) <= 0xFFFF_FFF0 ==> data_end(m.data) <= heap_cell(m.data) < data_end(
                m.data,
            ) + 4
        }),
{
}

/// The encoding of every module starts with the magic number and version.
pub proof fn lemma_module_bytes_start(m: ModuleIrV)
    ensures
        module_bytes(m).len() >= 8,
        module_bytes(m).take(8) == header(),
{
    let r = module_bytes(m);
    assert forall|k: int| 0 <= k < 8 implies r[k] == header()[k] by {}
    assert(r.take(8) =~= header());
}

/// What a source text compiles to is a WebAssembly binary: it starts with
/// the magic number `\0asm` and version 1.
pub proof fn law_output_is_a_wasm_binary(src: Seq<u8>)
    requires
        spec_compile(src) is Ok,
    ensures
        spec_compile(src)->Ok_0.len() >= 8,
        spec_compile(src)->Ok_0.take(8) == header(),
{
    let p = spec_parse_source(src)->Ok_0;
    let m = spec_lower_module(p)->Ok_0;
    lemma_module_bytes_start(m);
}

proof fn lemma_find_main(items: Seq<ItemV>, k: int)
    requires
        find_main(items, k) is Some,
    ensures
        exists|j: int|
            k <= j < items.len() && #[trigger] items[j] == ItemV::ExportFn(
                find_main(items, k)->Some_0,
            ),
        find_main(items, k)->Some_0.name == "main"@,
    decreases items.len() - k,
{
    match items[k] {
        ItemV::ExportFn(f) => {
            if f.name != "main"@ {
                lemma_find_main(items, k + 1);
            } else {
                assert(items[k] == ItemV::ExportFn(find_main(items, k)->Some_0));
            }
        },
        _ => lemma_find_main(items, k + 1),
    }
}

proof fn lemma_defined_prefix(items: Seq<ItemV>)
    requires
        items.len() > 0,
    ensures
        defined(items.drop_last()).len() <= defined(items).len(),
        forall|d: int|
            0 <= d < defined(items.drop_last()).len() ==> #[trigger] defined(items)[d]
                == defined(items.drop_last())[d],
{
}

proof fn lemma_defined_has(items: Seq<ItemV>, j: int, f: FunctionV)
    requires
        0 <= j < items.len(),
        items[j] == ItemV::ExportFn(f),
    ensures
        exists|d: int| 0 <= d < defined(items).len() && #[trigger] defined(items)[d] == (true, f),
    decreases items.len(),
{
    lemma_defined_prefix(items);
    if j == items.len() - 1 {
        let d = defined(items.drop_last()).len() as int;
        assert(defined(items)[d] == (true, f));
    } else {
        assert(items.drop_last()[j] == items[j]);
        lemma_defined_has(items.drop_last(), j, f);
        let d = choose|d: int|
            0 <= d < defined(items.drop_last()).len() && #[trigger] defined(items.drop_last())[d]
                == (true, f);
        assert(defined(items)[d] == (true, f));
    }
}

proof fn lemma_exports_of_has(defs: Seq<(bool, FunctionV)>, k: int, base: int, d: int)
    requires
        0 <= d < k <= defs.len(),
        defs[d].0,
    ensures
        exists|e: int|
            0 <= e < exports_of(defs, k, base).len() && #[trigger] exports_of(defs, k, base)[e]
                == (ExportV { name: defs[d].1.name, kind: ExportKind::Func, index: (base + d) as u32 }),
    decreases k,
{
    let x = ExportV { name: defs[d].1.name, kind: ExportKind::Func, index: (base + d) as u32 };
    if d == k - 1 {
        let e = exports_of(defs, k - 1, base).len() as int;
        assert(exports_of(defs, k, base)[e] == x);
    } else {
        lemma_exports_of_has(defs, k - 1, base, d);
        let e = choose|e: int|
            0 <= e < exports_of(defs, k - 1, base).len() && #[trigger] exports_of(defs, k - 1, base)[e]
                == x;
        if defs[k - 1].0 {
            assert(exports_of(defs, k, base)[e] == x);
        } else {
            assert(exports_of(defs, k, base)[e] == x);
        }
    }
}

/// A program compiles only where it has an `export fn main(): i32` without
/// parameters. Its module then imports `env.print` as function 0, exports
/// a function named `main`, exports `__alloc` for the host, and exports
/// its memory last.
pub proof fn law_compiled_program_exports_main(p: ProgramV)
    requires
        spec_emit(p) is Ok,
    ensures
        find_main(p.items, 0) is Some,
        find_main(p.items, 0)->Some_0.params.len() == 0,
        find_main(p.items, 0)->Some_0.ret_ty == Type::I32,
        spec_lower_module(p) is Ok,
        spec_lower_module(p)->Ok_0.imports[0] == print_import(),
        spec_lower_module(p)->Ok_0.exports.last() == memory_export(),
        spec_lower_module(p)->Ok_0.exports.len() >= 2,
        spec_lower_module(p)->Ok_0.exports[spec_lower_module(p)->Ok_0.exports.len() - 2].name
            == "__alloc"@,
        exists|e: int|
            0 <= e < spec_lower_module(p)->Ok_0.exports.len() && (#[trigger] spec_lower_module(
                p,
            )->Ok_0.exports[e]).name == "main"@ && spec_lower_module(p)->Ok_0.exports[e].kind
                == ExportKind::Func,
{
    let m = spec_lower_module(p)->Ok_0;
    let f = find_main(p.items, 0)->Some_0;
    lemma_find_main(p.items, 0);
    let j = choose|j: int| 0 <= j < p.items.len() && #[trigger] p.items[j] == ItemV::ExportFn(f);
    lemma_defined_has(p.items, j, f);
    let defs = defined(p.items);
    let d = choose|d: int| 0 <= d < defs.len() && #[trigger] defs[d] == (true, f);
    let base: int = 1 + crate::codegen::imported(p.items).len() as int;
    lemma_exports_of_has(defs, defs.len() as int, base, d);
    let fx = exports_of(defs, defs.len() as int, base);
    let e = choose|e: int|
        0 <= e < fx.len() && #[trigger] fx[e] == (ExportV {
            name: defs[d].1.name,
            kind: ExportKind::Func,
            index: (base + d) as u32,
        });
    let cxl = crate::codegen::module_sigs(p.items).len() as u32;
    assert(m.exports == fx.push(alloc_export(cxl)).push(memory_export()));
    assert(m.exports[e] == fx[e]);
    assert(m.exports[m.exports.len() - 2] == alloc_export(cxl));
}

/// `print` takes a string: a string literal, or an expression of type
/// `string` (such as a call of an imported function returning one); any
/// other argument is refused with `PrintNonLiteral`.
pub proof fn law_print_takes_a_string(cx: Seq<SigV>, e: ExprV, st: LStateV, ret: Type)
    requires
        !(e is Str),
        spec_lower_expr(cx, e, st) is Ok,
    ensures
        spec_lower_stmt(cx, StmtV::Print(e), st, ret) is Ok <==> spec_lower_expr(
            cx,
            e,
            st,
        )->Ok_0.1 is String,
        !(spec_lower_expr(cx, e, st)->Ok_0.1 is String) ==> spec_lower_stmt(
            cx,
            StmtV::Print(e),
            st,
            ret,
        ) == Err::<(Seq<Instr>, LStateV), _>(CodegenErrorV::PrintNonLiteral),
{
}

/// The value of `a op b` on two `i32` values, for the operators whose code
/// is plain `i32` arithmetic: `+ - *` wrap, and the comparisons are signed
/// and give 1 when they hold, else 0.
pub open spec fn op_value(op: BinOp, a: i32, b: i32) -> Option<i32> {
    match op {
        BinOp::Add => Some(a.wrapping_add(b)),
        BinOp::Sub => Some(a.wrapping_sub(b)),
        BinOp::Mul => Some(a.wrapping_mul(b)),
        BinOp::Eq => Some(if a == b { 1i32 } else { 0i32 }),
        BinOp::Ne => Some(if a != b { 1i32 } else { 0i32 }),
        BinOp::Lt => Some(if a < b { 1i32 } else { 0i32 }),
        BinOp::Le => Some(if a <= b { 1i32 } else { 0i32 }),
        BinOp::Gt => Some(if a > b { 1i32 } else { 0i32 }),
        BinOp::Ge => Some(if a >= b { 1i32 } else { 0i32 }),
        _ => None,
    }
}

/// The code of `a op b` on two `i32` literals computes what the operator
/// means: run from any value stack, it pushes `op_value(op, a, b)`, and a
/// comparison has type `bool`.
pub proof fn law_operator_code_computes_its_value(
    cx: Seq<SigV>,
    op: BinOp,
    a: i32,
    b: i32,
    st: LStateV,
    s: Seq<i32>,
)
    requires
        op_value(op, a, b) is Some,
    ensures
        spec_lower_expr(cx, bin(op, ExprV::Int(a), ExprV::Int(b)), st) matches Ok((code, t, _))
            && i32_run(code, s) == s.push(op_value(op, a, b)->Some_0) && (t == Type::Bool <==> !(
        op is Add || op is Sub || op is Mul)),
{
    let e = bin(op, ExprV::Int(a), ExprV::Int(b));
    assert(spec_lower_expr(cx, ExprV::Int(a), st) == Ok::<_, CodegenErrorV>(
        (seq![Instr::I32Const(a)], Type::I32, st),
    ));
    assert(spec_lower_expr(cx, ExprV::Int(b), st) == Ok::<_, CodegenErrorV>(
        (seq![Instr::I32Const(b)], Type::I32, st),
    ));
    let r = spec_lower_expr(cx, e, st);
    assert(r is Ok);
    let code = r->Ok_0.0;
    let last = code[2];
    assert(code =~= seq![Instr::I32Const(a), Instr::I32Const(b), last]);
    reveal_with_fuel(i32_run, 4);
    let s2 = s.push(a).push(b);
    assert(s2[s2.len() - 2] == a);
    assert(s2[s2.len() - 1] == b);
    assert(s2.drop_last().drop_last() =~= s);
    assert(code.drop_first() =~= seq![Instr::I32Const(b), last]);
    assert(code.drop_first().drop_first() =~= seq![last]);
    assert(seq![last].drop_first() =~= Seq::<Instr>::empty());
}

/// The operator a binary operator token spells.
pub open spec fn spelled_binop(k: TokK) -> Option<BinOp> {
    match k {
        TokK::Plus => Some(BinOp::Add),
        TokK::Minus => Some(BinOp::Sub),
        TokK::Star => Some(BinOp::Mul),
        TokK::Slash => Some(BinOp::Div),
        TokK::EqEq => Some(BinOp::Eq),
        TokK::BangEq => Some(BinOp::Ne),
        TokK::Lt => Some(BinOp::Lt),
        TokK::LtEq => Some(BinOp::Le),
        TokK::Gt => Some(BinOp::Gt),
        TokK::GtEq => Some(BinOp::Ge),
        TokK::AndAnd => Some(BinOp::And),
        TokK::OrOr => Some(BinOp::Or),
        _ => None,
    }
}

/// A binary operator token between two integer literals parses to the
/// operator it spells, over those two literals, and the whole expression
/// is read.
pub proof fn law_operator_tokens_parse_to_what_they_spell(
    k: TokK,
    a: i32,
    b: i32,
    p0: int,
    p1: int,
    p2: int,
)
    requires
        spelled_binop(k) is Some,
    ensures
        spec_parse_expr(
            seq![
                TokenV { kind: TokK::Int(a), pos: p0 },
                TokenV { kind: k, pos: p1 },
                TokenV { kind: TokK::Int(b), pos: p2 },
            ],
            0,
        ) == Ok::<_, crate::parser::ParseErrorV>(
            (bin(spelled_binop(k)->Some_0, ExprV::Int(a), ExprV::Int(b)), 3int),
        ),
{
    let t = seq![
        TokenV { kind: TokK::Int(a), pos: p0 },
        TokenV { kind: k, pos: p1 },
        TokenV { kind: TokK::Int(b), pos: p2 },
    ];
    let op = spelled_binop(k)->Some_0;
    let ea = ExprV::Int(a);
    let eb = ExprV::Int(b);
    let e = bin(op, ea, eb);
    let ok = |x: ExprV, j: int| Ok::<(ExprV, int), crate::parser::ParseErrorV>((x, j));
    // The literal after the operator, read at every level.
    assert(spec_parse_primary(t, 2) == ok(eb, 3));
    assert(spec_parse_unary(t, 2) == ok(eb, 3));
    assert(crate::parser::spec_mul_div_rest(t, 3, eb) == ok(eb, 3));
    assert(spec_parse_mul_div(t, 2) == ok(eb, 3));
    assert(crate::parser::spec_add_sub_rest(t, 3, eb) == ok(eb, 3));
    assert(spec_parse_add_sub(t, 2) == ok(eb, 3));
    assert(crate::parser::spec_compare_rest(t, 3, eb) == ok(eb, 3));
    assert(spec_parse_compare(t, 2) == ok(eb, 3));
    // The literal before it, and the operator at its own level.
    assert(spec_parse_primary(t, 0) == ok(ea, 1));
    assert(spec_parse_unary(t, 0) == ok(ea, 1));
    let md = if k is Star || k is Slash { ok(e, 3) } else { ok(ea, 1) };
    assert(crate::parser::spec_mul_div_rest(t, 3, e) == ok(e, 3));
    assert(spec_parse_mul_div(t, 0) == md);
    let asub = if k is Plus || k is Minus { ok(e, 3) } else { md };
    assert(crate::parser::spec_add_sub_rest(t, 3, e) == ok(e, 3));
    assert(crate::parser::add_sub_node(op, ea, eb) == e);
    assert(spec_parse_add_sub(t, 0) == asub);
    let cmp = if crate::parser::is_compare(k) { ok(e, 3) } else { asub };
    assert(crate::parser::spec_compare_rest(t, 3, e) == ok(e, 3));
    assert(spec_parse_compare(t, 0) == cmp);
    let and = if k is AndAnd { ok(e, 3) } else { cmp };
    assert(crate::parser::spec_and_rest(t, 3, e) == ok(e, 3));
    assert(crate::parser::spec_and_rest(t, 3, eb) == ok(eb, 3));
    assert(spec_parse_and(t, 2) == ok(eb, 3));
    assert(spec_parse_and(t, 0) == and);
    assert(crate::parser::spec_or_rest(t, 3, e) == ok(e, 3));
    assert(spec_parse_or(t, 0) == ok(e, 3));
}

/// A comparison or arithmetic written in the source between two integer
/// literals computes what its token means: parsed and lowered, its code
/// pushes `a k b` (for `+ - *` wrapping; for the comparisons 1 when
/// `a k b` holds, else 0).
pub proof fn law_operator_tokens_compute_what_they_spell(
    k: TokK,
    a: i32,
    b: i32,
    p0: int,
    p1: int,
    p2: int,
    cx: Seq<SigV>,
    st: LStateV,
    s: Seq<i32>,
)
    requires
        k is Plus || k is Minus || k is Star || k is EqEq || k is BangEq || k is Lt || k is LtEq
            || k is Gt || k is GtEq,
    ensures
        ({
            let t = seq![
                TokenV { kind: TokK::Int(a), pos: p0 },
                TokenV { kind: k, pos: p1 },
                TokenV { kind: TokK::Int(b), pos: p2 },
            ];
            let v = match k {
                TokK::Plus => a.wrapping_add(b),
                TokK::Minus => a.wrapping_sub(b),
                TokK::Star => a.wrapping_mul(b),
                TokK::EqEq => if a == b { 1i32 } else { 0i32 },
                TokK::BangEq => if a != b { 1i32 } else { 0i32 },
                TokK::Lt => if a < b { 1i32 } else { 0i32 },
                TokK::LtEq => if a <= b { 1i32 } else { 0i32 },
                TokK::Gt => if a > b { 1i32 } else { 0i32 },
                _ => if a >= b { 1i32 } else { 0i32 },
            };
            let r = spec_parse_expr(t, 0);
            &&& r is Ok
            &&& r->Ok_0.1 == 3
            &&& spec_lower_expr(cx, r->Ok_0.0, st) is Ok
            &&& i32_run(spec_lower_expr(cx, r->Ok_0.0, st)->Ok_0.0, s) == s.push(v)
        }),
{
    law_operator_tokens_parse_to_what_they_spell(k, a, b, p0, p1, p2);
    law_operator_code_computes_its_value(cx, spelled_binop(k)->Some_0, a, b, st, s);
}

/// The literals `true` and `false`, and `!` before an integer or boolean
/// literal, are read as written and compute what they mean: a boolean is
/// 1 or 0, and `!x` is 1 exactly when `x` is 0.
pub proof fn law_booleans_and_not_compute_their_value(
    a: i32,
    p0: int,
    p1: int,
    cx: Seq<SigV>,
    st: LStateV,
    s: Seq<i32>,
)
    ensures
        spec_parse_expr(seq![TokenV { kind: TokK::True, pos: p0 }], 0) == Ok::<
            _,
            crate::parser::ParseErrorV,
        >((ExprV::Bool(true), 1int)),
        spec_parse_expr(seq![TokenV { kind: TokK::False, pos: p0 }], 0) == Ok::<
            _,
            crate::parser::ParseErrorV,
        >((ExprV::Bool(false), 1int)),
        spec_parse_expr(
            seq![TokenV { kind: TokK::Bang, pos: p0 }, TokenV { kind: TokK::Int(a), pos: p1 }],
            0,
        ) == Ok::<_, crate::parser::ParseErrorV>((ExprV::Not(Box::new(ExprV::Int(a))), 2int)),
        spec_lower_expr(cx, ExprV::Bool(true), st) matches Ok((c, t, _)) && t == Type::Bool
            && i32_run(c, s) == s.push(1),
        spec_lower_expr(cx, ExprV::Bool(false), st) matches Ok((c, t, _)) && t == Type::Bool
            && i32_run(c, s) == s.push(0),
        spec_lower_expr(cx, ExprV::Not(Box::new(ExprV::Int(a))), st) matches Ok((c, t, _)) && t
            == Type::Bool && i32_run(c, s) == s.push(if a == 0 { 1i32 } else { 0i32 }),
{
    reveal_with_fuel(i32_run, 3);
    let ok = |x: ExprV, j: int| Ok::<(ExprV, int), crate::parser::ParseErrorV>((x, j));
    let t1 = seq![TokenV { kind: TokK::True, pos: p0 }];
    let t2 = seq![TokenV { kind: TokK::False, pos: p0 }];
    let t3 = seq![TokenV { kind: TokK::Bang, pos: p0 }, TokenV { kind: TokK::Int(a), pos: p1 }];
    let en = ExprV::Not(Box::new(ExprV::Int(a)));
    assert(spec_parse_unary(t1, 0) == ok(ExprV::Bool(true), 1));
    assert(spec_parse_mul_div(t1, 0) == ok(ExprV::Bool(true), 1));
    assert(spec_parse_add_sub(t1, 0) == ok(ExprV::Bool(true), 1));
    assert(spec_parse_compare(t1, 0) == ok(ExprV::Bool(true), 1));
    assert(spec_parse_and(t1, 0) == ok(ExprV::Bool(true), 1));
    assert(spec_parse_unary(t2, 0) == ok(ExprV::Bool(false), 1));
    assert(spec_parse_mul_div(t2, 0) == ok(ExprV::Bool(false), 1));
    assert(spec_parse_add_sub(t2, 0) == ok(ExprV::Bool(false), 1));
    assert(spec_parse_compare(t2, 0) == ok(ExprV::Bool(false), 1));
    assert(spec_parse_and(t2, 0) == ok(ExprV::Bool(false), 1));
    assert(spec_parse_unary(t3, 1) == ok(ExprV::Int(a), 2));
    assert(spec_parse_unary(t3, 0) == ok(en, 2));
    assert(spec_parse_mul_div(t3, 0) == ok(en, 2));
    assert(spec_parse_add_sub(t3, 0) == ok(en, 2));
    assert(spec_parse_compare(t3, 0) == ok(en, 2));
    assert(spec_parse_and(t3, 0) == ok(en, 2));
    let c1 = seq![Instr::I32Const(1)];
    assert(c1.drop_first() =~= Seq::<Instr>::empty());
    let c0 = seq![Instr::I32Const(0)];
    assert(c0.drop_first() =~= Seq::<Instr>::empty());
    assert(spec_lower_expr(cx, ExprV::Int(a), st) == Ok::<_, CodegenErrorV>(
        (seq![Instr::I32Const(a)], Type::I32, st),
    ));
    let cn = seq![Instr::I32Const(a)] + seq![Instr::I32Eqz];
    assert(cn.drop_first() =~= seq![Instr::I32Eqz]);
    assert(seq![Instr::I32Eqz].drop_first() =~= Seq::<Instr>::empty());
    assert(s.push(a).drop_last() =~= s);
}

/// The index, from `k`, of the `else` or `end` that closes the block open
/// at depth `depth` (blocks opened inside it are skipped), if any.
pub open spec fn block_close(c: Seq<Instr>, k: int, depth: nat) -> Option<int>
    decreases c.len() - k,
{
    if k < 0 || k >= c.len() {
        None
    } else {
        match c[k] {
            Instr::If | Instr::IfI32 | Instr::Block | Instr::Loop => block_close(c, k + 1, depth + 1),
            Instr::End => if depth == 0 {
                Some(k)
            } else {
                block_close(c, k + 1, (depth - 1) as nat)
            },
            Instr::Else => if depth == 0 {
                Some(k)
            } else {
                block_close(c, k + 1, depth)
            },
            _ => block_close(c, k + 1, depth),
        }
    }
}

pub proof fn lemma_block_close(c: Seq<Instr>, k: int, depth: nat)
    ensures
        block_close(c, k, depth) matches Some(m) ==> 0 <= k <= m < c.len(),
    decreases c.len() - k,
{
    if 0 <= k < c.len() {
        match c[k] {
            Instr::If | Instr::IfI32 | Instr::Block | Instr::Loop => lemma_block_close(c, k + 1, depth + 1),
            Instr::End => if depth != 0 {
                lemma_block_close(c, k + 1, (depth - 1) as nat)
            },
            Instr::Else => if depth != 0 {
                lemma_block_close(c, k + 1, depth)
            },
            _ => lemma_block_close(c, k + 1, depth),
        }
    }
}

/// The `i32` instructions that only work on the value stack.
pub open spec fn stack_op(i: Instr) -> bool {
    i is I32Const || i is I32Eqz || i is I32Add || i is I32Sub || i is I32Mul || i is I32And
        || i is I32Or || i is I32Xor || i is I32Shl || i is I32ShrS || i is I32ShrU || i is I32Eq
        || i is I32Ne || i is I32LtS || i is I32LeS || i is I32GtS || i is I32GeS
}

/// The value stack after running `c` from `s`, for code made of stack
/// instructions and `if ... [else ...] end` (an `if` takes the top value
/// and runs its first branch when that value is not 0); `None` for any
/// other code.
pub open spec fn srun(c: Seq<Instr>, s: Seq<i32>) -> Option<Seq<i32>>
    decreases c.len(),
{
    if c.len() == 0 {
        Some(s)
    } else if stack_op(c[0]) {
        srun(c.drop_first(), i32_step(c[0], s))
    } else if (c[0] is If || c[0] is IfI32) && s.len() > 0 {
        let body = c.drop_first();
        let cond = s.last();
        let s1 = s.drop_last();
        proof {
            lemma_block_close(body, 0, 0);
        }
        match block_close(body, 0, 0) {
            None => None,
            Some(m) => if body[m] is End {
                let mid = if cond != 0 {
                    srun(body.take(m), s1)
                } else {
                    Some(s1)
                };
                match mid {
                    None => None,
                    Some(s2) => srun(body.skip(m + 1), s2),
                }
            } else {
                let eb = body.skip(m + 1);
                proof {
                    lemma_block_close(eb, 0, 0);
                }
                match block_close(eb, 0, 0) {
                    None => None,
                    Some(m2) => if eb[m2] is End {
                        let mid = if cond != 0 {
                            srun(body.take(m), s1)
                        } else {
                            srun(eb.take(m2), s1)
                        };
                        match mid {
                            None => None,
                            Some(s2) => srun(eb.skip(m2 + 1), s2),
                        }
                    } else {
                        None
                    },
                }
            },
        }
    } else {
        None
    }
}

/// `&&` and `||` on two integer literals compute the logical value: 1 when
/// both (for `&&`) or either (for `||`) are not 0, else 0.
pub proof fn law_logical_operators_compute_their_value(
    cx: Seq<SigV>,
    op: BinOp,
    a: i32,
    b: i32,
    st: LStateV,
    s: Seq<i32>,
)
    requires
        op is And || op is Or,
    ensures
        spec_lower_expr(cx, bin(op, ExprV::Int(a), ExprV::Int(b)), st) matches Ok((code, t, _))
            && t == Type::Bool && srun(code, s) == Some(
            s.push(
                if (op is And && a != 0 && b != 0) || (op is Or && (a != 0 || b != 0)) {
                    1i32
                } else {
                    0i32
                },
            ),
        ),
{
    assert(spec_lower_expr(cx, ExprV::Int(a), st) == Ok::<_, CodegenErrorV>(
        (seq![Instr::I32Const(a)], Type::I32, st),
    ));
    assert(spec_lower_expr(cx, ExprV::Int(b), st) == Ok::<_, CodegenErrorV>(
        (seq![Instr::I32Const(b)], Type::I32, st),
    ));
    let code = spec_lower_expr(cx, bin(op, ExprV::Int(a), ExprV::Int(b)), st)->Ok_0.0;
    let sa = s.push(a);
    assert(sa.last() == a);
    assert(sa.drop_last() =~= s);
    let e = Seq::<Instr>::empty();
    assert(srun(e, s) == Some(s));
    let nb = if b == 0 { 1i32 } else { 0i32 };
    let bb = if b != 0 { 1i32 } else { 0i32 };
    // `b` turned into 0 or 1 by `eqz eqz`.
    let tb = seq![Instr::I32Const(b), Instr::I32Eqz, Instr::I32Eqz];
    assert(tb.drop_first() =~= seq![Instr::I32Eqz, Instr::I32Eqz]);
    assert(seq![Instr::I32Eqz, Instr::I32Eqz].drop_first() =~= seq![Instr::I32Eqz]);
    assert(seq![Instr::I32Eqz].drop_first() =~= e);
    assert(s.push(b).drop_last() =~= s);
    assert(s.push(nb).drop_last() =~= s);
    assert(i32_step(Instr::I32Eqz, s.push(nb)) =~= s.push(bb));
    assert(srun(e, s.push(bb)) == Some(s.push(bb)));
    assert(srun(seq![Instr::I32Eqz], s.push(nb)) == Some(s.push(bb)));
    assert(i32_step(Instr::I32Eqz, s.push(b)) =~= s.push(nb));
    assert(srun(seq![Instr::I32Eqz, Instr::I32Eqz], s.push(b)) == Some(s.push(bb)));
    assert(srun(tb, s) == Some(s.push(bb)));
    if op is And {
        let body = seq![
            Instr::I32Const(b),
            Instr::I32Eqz,
            Instr::I32Eqz,
            Instr::Else,
            Instr::I32Const(0),
            Instr::End,
        ];
        assert(code =~= seq![Instr::I32Const(a), Instr::IfI32] + body);
        assert(code.drop_first() =~= seq![Instr::IfI32] + body);
        assert((seq![Instr::IfI32] + body).drop_first() =~= body);
        reveal_with_fuel(block_close, 5);
        assert(block_close(body, 0, 0) == Some(3int));
        assert(body.take(3) =~= tb);
        let eb = body.skip(4);
        assert(eb =~= seq![Instr::I32Const(0), Instr::End]);
        assert(block_close(eb, 0, 0) == Some(1int));
        assert(eb.take(1) =~= seq![Instr::I32Const(0)]);
        assert(eb.skip(2) =~= e);
        assert(seq![Instr::I32Const(0)].drop_first() =~= e);
        assert(srun(e, s.push(0)) == Some(s.push(0)));
        assert(srun(seq![Instr::I32Const(0)], s) == Some(s.push(0)));
        assert(srun(seq![Instr::IfI32] + body, sa) == Some(s.push(if a != 0 { bb } else { 0i32 })));
    } else {
        let body = seq![
            Instr::I32Const(1),
            Instr::Else,
            Instr::I32Const(b),
            Instr::I32Eqz,
            Instr::I32Eqz,
            Instr::End,
        ];
        assert(code =~= seq![Instr::I32Const(a), Instr::IfI32] + body);
        assert(code.drop_first() =~= seq![Instr::IfI32] + body);
        assert((seq![Instr::IfI32] + body).drop_first() =~= body);
        reveal_with_fuel(block_close, 5);
        assert(block_close(body, 0, 0) == Some(1int));
        assert(body.take(1) =~= seq![Instr::I32Const(1)]);
        let eb = body.skip(2);
        assert(eb =~= tb + seq![Instr::End]);
        assert(block_close(eb, 0, 0) == Some(3int));
        assert(eb.take(3) =~= tb);
        assert(eb.skip(4) =~= e);
        assert(seq![Instr::I32Const(1)].drop_first() =~= e);
        assert(srun(e, s.push(1)) == Some(s.push(1)));
        assert(srun(seq![Instr::I32Const(1)], s) == Some(s.push(1)));
        assert(srun(seq![Instr::IfI32] + body, sa) == Some(s.push(if a != 0 { 1i32 } else { bb })));
    }
}

} // verus!
