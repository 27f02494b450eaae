//! Properties of the grammar in `parser`: the alternative spellings the
//! language offers (`x := e` for `let x = e`, V-style types without `:`)
//! mean the same thing, and a sum of string literals is one literal.
use vstd::prelude::*;
use crate::ast::{BinOp, ExprV, StmtV};
use crate::lexer::{TokK, TokenV};
use crate::parser::{
    PRes, ParseErrorV, add_sub_node, kind_at, spec_add_sub_rest, spec_parse_add_sub,
    spec_parse_expr, spec_parse_mul_div, spec_parse_stmt, spec_parse_unary,
    spec_type_annot,
};

verus! {

/// The statement `let name = e` for the expression `e` that `r` read.
pub open spec fn let_of(name: Seq<char>, r: PRes<ExprV>) -> PRes<StmtV> {
    match r {
        Ok((e, j)) => Ok((StmtV::Let { name, expr: e }, j)),
        Err(err) => Err(err),
    }
}

/// The result `r` read `d` tokens further on: the same node ending `d`
/// tokens later, or the same error.
pub open spec fn shift<T>(r: PRes<T>, d: int) -> PRes<T> {
    match r {
        Ok((v, j)) => Ok((v, j + d)),
        Err(e) => Err(e),
    }
}

/// `x := e` is `let x = e`: at a statement, both `let x = e` (in `t` at
/// `i`) and `x := e` (in `u` at `k`) parse to the statement `let x = e`
/// for the expression `e` read right after `=` or `:=`, or fail with the
/// error of that expression.
pub proof fn law_short_declaration_is_let(
    t: Seq<TokenV>,
    i: int,
    u: Seq<TokenV>,
    k: int,
    x: Seq<char>,
)
    requires
        0 <= i,
        i + 3 <= t.len(),
        t[i].kind == TokK::Let,
        t[i + 1].kind == TokK::Ident(x),
        t[i + 2].kind == TokK::Equal,
        0 <= k,
        k + 2 <= u.len(),
        u[k].kind == TokK::Ident(x),
        u[k + 1].kind == TokK::ColonEqual,
        x != "print"@,
    ensures
        spec_parse_stmt(t, i) == let_of(x, spec_parse_expr(t, i + 3)),
        spec_parse_stmt(u, k) == let_of(x, spec_parse_expr(u, k + 2)),
{
    assert(kind_at(t, i) == TokK::Let);
    assert(kind_at(t, i + 1) == TokK::Ident(x));
    assert(kind_at(t, i + 2) == TokK::Equal);
    assert(kind_at(u, k) == TokK::Ident(x));
    assert(kind_at(u, k + 1) == TokK::ColonEqual);
}

/// A type may be written TS style (`: T`) or V style (`T`): where the token
/// after the `:` in `t` is the token of `u` (which is not itself a `:`),
/// both read the same type, the TS form ending one token later, or fail
/// with an error at that token.
pub proof fn law_type_annotation_styles(t: Seq<TokenV>, i: int, u: Seq<TokenV>, k: int)
    requires
        0 <= i,
        i + 1 < t.len(),
        t[i].kind == TokK::Colon,
        0 <= k < u.len(),
        u[k] == t[i + 1],
        !(u[k].kind is Colon),
    ensures
        spec_type_annot(t, i) == shift(spec_type_annot(u, k), i + 1 - k),
{
    assert(kind_at(t, i) == TokK::Colon);
    assert(kind_at(t, i + 1) == kind_at(u, k));
}

/// A sum of two string literals is folded into one literal: `"a" + "b"`
/// (not followed by `*` or `/`) reads as the literal `"ab"`, and the sum
/// goes on from there.
pub proof fn law_string_literal_sum_folds(t: Seq<TokenV>, i: int, x: Seq<char>, y: Seq<char>)
    requires
        0 <= i,
        i + 3 <= t.len(),
        t[i].kind == TokK::Str(x),
        t[i + 1].kind == TokK::Plus,
        t[i + 2].kind == TokK::Str(y),
        !(kind_at(t, i + 3) is Star || kind_at(t, i + 3) is Slash),
    ensures
        spec_parse_add_sub(t, i) == spec_add_sub_rest(t, i + 3, ExprV::Str(x + y)),
{
    assert(kind_at(t, i) == TokK::Str(x));
    assert(kind_at(t, i + 1) == TokK::Plus);
    assert(kind_at(t, i + 2) == TokK::Str(y));
    assert(spec_parse_unary(t, i) == Ok::<_, ParseErrorV>((ExprV::Str(x), i + 1)));
    assert(spec_parse_mul_div(t, i) == Ok::<_, ParseErrorV>((ExprV::Str(x), i + 1)));
    assert(spec_parse_unary(t, i + 2) == Ok::<_, ParseErrorV>((ExprV::Str(y), i + 3)));
    assert(spec_parse_mul_div(t, i + 2) == Ok::<_, ParseErrorV>((ExprV::Str(y), i + 3)));
    assert(add_sub_node(BinOp::Add, ExprV::Str(x), ExprV::Str(y)) == ExprV::Str(x + y));
}

} // verus!
