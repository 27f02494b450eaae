//! Recursive-descent parser from the token sequence of `lexer::lex` to a
//! `Program`. Its result is stated exactly by the spec functions below,
//! which read the token sequence from an index and give the parsed node with
//! the index after it, or the error (position and message) at which parsing
//! stops.
use vstd::prelude::*;
use crate::ast::{
    BinOp, Decimal, Expr, ExprV, Function, FunctionV, ImportFn, ImportFnV, Item, ItemV, Param,
    ParamV, Program, ProgramV, Stmt, StmtV, Type, expr_view, exprs_view, stmt_view, stmts_view,
    params_view,
};
use vstd::string::StringSliceAdditionalSpecFns;
use crate::lexer::{Token, TokenKind, TokK, TokenV, tokens_view, spec_lex, lex, push_str};

verus! {

#[derive(Debug, Clone, PartialEq, Eq)]
pub struct ParseError {
    pub pos: usize,
    pub message: String,
}

pub struct ParseErrorV {
    pub pos: int,
    pub message: Seq<char>,
}

impl View for ParseError {
    type V = ParseErrorV;

    open spec fn view(&self) -> ParseErrorV {
        ParseErrorV { pos: self.pos as int, message: self.message@ }
    }
}

pub type PRes<T> = Result<(T, int), ParseErrorV>;

// ---------------------------------------------------------------------------
// Specification
// ---------------------------------------------------------------------------

/// The kind of token `i`; past the end of the sequence, `Eof`.
pub open spec fn kind_at(t: Seq<TokenV>, i: int) -> TokK {
    if 0 <= i < t.len() {
        t[i].kind
    } else {
        TokK::Eof
    }
}

pub open spec fn pos_at(t: Seq<TokenV>, i: int) -> int {
    if 0 <= i < t.len() {
        t[i].pos
    } else {
        0
    }
}

pub open spec fn perr(t: Seq<TokenV>, i: int, msg: Seq<char>) -> ParseErrorV {
    ParseErrorV { pos: pos_at(t, i), message: msg }
}

/// Whether `j` lies strictly after `i` and within the sequence: each
/// recursive step of the grammar below is taken only under this condition,
/// which the parser's own progress makes true.
pub open spec fn adv(t: Seq<TokenV>, i: int, j: int) -> bool {
    i < j <= t.len()
}

pub open spec fn skip_newlines(t: Seq<TokenV>, i: int) -> int
    decreases t.len() - i,
{
    if kind_at(t, i) is Newline {
        skip_newlines(t, i + 1)
    } else {
        i
    }
}

pub open spec fn spec_parse_type(t: Seq<TokenV>, i: int) -> PRes<Type> {
    match kind_at(t, i) {
        TokK::Ident(s) => {
            if s == "i32"@ {
                Ok((Type::I32, i + 1))
            } else if s == "f64"@ {
                Ok((Type::F64, i + 1))
            } else if s == "string"@ {
                Ok((Type::String, i + 1))
            } else if s == "void"@ {
                Ok((Type::Void, i + 1))
            } else if s == "bool"@ {
                Ok((Type::Bool, i + 1))
            } else {
                Err(perr(t, i, "expected type"@))
            }
        },
        _ => Err(perr(t, i, "expected type"@)),
    }
}

pub open spec fn spec_expect_ident(t: Seq<TokenV>, i: int) -> PRes<Seq<char>> {
    match kind_at(t, i) {
        TokK::Ident(s) => Ok((s, i + 1)),
        _ => Err(perr(t, i, "expected identifier"@)),
    }
}

/// A type after an optional `:` (TS style `: i32` or V style `i32`).
pub open spec fn spec_type_annot(t: Seq<TokenV>, i: int) -> PRes<Type> {
    if kind_at(t, i) is Colon {
        spec_parse_type(t, i + 1)
    } else {
        spec_parse_type(t, i)
    }
}

pub open spec fn spec_params_list(t: Seq<TokenV>, i: int, acc: Seq<ParamV>) -> PRes<Seq<ParamV>>
    decreases t.len() - i,
{
    match spec_expect_ident(t, i) {
        Err(e) => Err(e),
        Ok((name, j)) => match spec_type_annot(t, j) {
            Err(e) => Err(e),
            Ok((ty, k)) => {
                let acc2 = acc.push(ParamV { name, ty });
                if kind_at(t, k) is Comma {
                    let n = skip_newlines(t, k + 1);
                    if adv(t, i, n) {
                        spec_params_list(t, n, acc2)
                    } else {
                        Err(perr(t, n, Seq::empty()))
                    }
                } else {
                    Ok((acc2, k))
                }
            },
        },
    }
}

pub open spec fn spec_params(t: Seq<TokenV>, i: int) -> PRes<Seq<ParamV>> {
    let i1 = skip_newlines(t, i);
    if kind_at(t, i1) is RParen {
        Ok((Seq::empty(), i1))
    } else {
        spec_params_list(t, i1, Seq::empty())
    }
}

pub open spec fn is_compare(k: TokK) -> bool {
    k is EqEq || k is BangEq || k is Lt || k is LtEq || k is Gt || k is GtEq
}

pub open spec fn compare_op(k: TokK) -> BinOp {
    match k {
        TokK::EqEq => BinOp::Eq,
        TokK::BangEq => BinOp::Ne,
        TokK::Lt => BinOp::Lt,
        TokK::LtEq => BinOp::Le,
        TokK::Gt => BinOp::Gt,
        _ => BinOp::Ge,
    }
}

pub open spec fn bin(op: BinOp, l: ExprV, r: ExprV) -> ExprV {
    ExprV::Binary { op, left: Box::new(l), right: Box::new(r) }
}

/// `l + r` and `l - r`, where `+` of two string literals is folded into one
/// literal.
pub open spec fn add_sub_node(op: BinOp, l: ExprV, r: ExprV) -> ExprV {
    match (l, r) {
        (ExprV::Str(a), ExprV::Str(b)) => if op is Add {
            ExprV::Str(a + b)
        } else {
            bin(op, l, r)
        },
        _ => bin(op, l, r),
    }
}

pub open spec fn spec_parse_expr(t: Seq<TokenV>, i: int) -> PRes<ExprV>
    decreases t.len() - i, 7nat,
{
    spec_parse_or(t, i)
}

pub open spec fn spec_parse_or(t: Seq<TokenV>, i: int) -> PRes<ExprV>
    decreases t.len() - i, 6nat,
{
    match spec_parse_and(t, i) {
        Err(e) => Err(e),
        Ok((l, j)) => if adv(t, i, j) {
            spec_or_rest(t, j, l)
        } else {
            Err(perr(t, j, Seq::empty()))
        },
    }
}

pub open spec fn spec_or_rest(t: Seq<TokenV>, i: int, acc: ExprV) -> PRes<ExprV>
    decreases t.len() - i, 6nat,
{
    if kind_at(t, i) is OrOr {
        match spec_parse_and(t, i + 1) {
            Err(e) => Err(e),
            Ok((r, j)) => if adv(t, i, j) {
                spec_or_rest(t, j, bin(BinOp::Or, acc, r))
            } else {
                Err(perr(t, j, Seq::empty()))
            },
        }
    } else {
        Ok((acc, i))
    }
}

pub open spec fn spec_parse_and(t: Seq<TokenV>, i: int) -> PRes<ExprV>
    decreases t.len() - i, 5nat,
{
    match spec_parse_compare(t, i) {
        Err(e) => Err(e),
        Ok((l, j)) => if adv(t, i, j) {
            spec_and_rest(t, j, l)
        } else {
            Err(perr(t, j, Seq::empty()))
        },
    }
}

pub open spec fn spec_and_rest(t: Seq<TokenV>, i: int, acc: ExprV) -> PRes<ExprV>
    decreases t.len() - i, 5nat,
{
    if kind_at(t, i) is AndAnd {
        match spec_parse_compare(t, i + 1) {
            Err(e) => Err(e),
            Ok((r, j)) => if adv(t, i, j) {
                spec_and_rest(t, j, bin(BinOp::And, acc, r))
            } else {
                Err(perr(t, j, Seq::empty()))
            },
        }
    } else {
        Ok((acc, i))
    }
}

pub open spec fn spec_parse_compare(t: Seq<TokenV>, i: int) -> PRes<ExprV>
    decreases t.len() - i, 4nat,
{
    match spec_parse_add_sub(t, i) {
        Err(e) => Err(e),
        Ok((l, j)) => if adv(t, i, j) {
            spec_compare_rest(t, j, l)
        } else {
            Err(perr(t, j, Seq::empty()))
        },
    }
}

pub open spec fn spec_compare_rest(t: Seq<TokenV>, i: int, acc: ExprV) -> PRes<ExprV>
    decreases t.len() - i, 4nat,
{
    if is_compare(kind_at(t, i)) {
        match spec_parse_add_sub(t, i + 1) {
            Err(e) => Err(e),
            Ok((r, j)) => if adv(t, i, j) {
                spec_compare_rest(t, j, bin(compare_op(kind_at(t, i)), acc, r))
            } else {
                Err(perr(t, j, Seq::empty()))
            },
        }
    } else {
        Ok((acc, i))
    }
}

pub open spec fn spec_parse_add_sub(t: Seq<TokenV>, i: int) -> PRes<ExprV>
    decreases t.len() - i, 3nat,
{
    match spec_parse_mul_div(t, i) {
        Err(e) => Err(e),
        Ok((l, j)) => if adv(t, i, j) {
            spec_add_sub_rest(t, j, l)
        } else {
            Err(perr(t, j, Seq::empty()))
        },
    }
}

pub open spec fn spec_add_sub_rest(t: Seq<TokenV>, i: int, acc: ExprV) -> PRes<ExprV>
    decreases t.len() - i, 3nat,
{
    if kind_at(t, i) is Plus || kind_at(t, i) is Minus {
        let op = if kind_at(t, i) is Plus {
            BinOp::Add
        } else {
            BinOp::Sub
        };
        match spec_parse_mul_div(t, i + 1) {
            Err(e) => Err(e),
            Ok((r, j)) => if adv(t, i, j) {
                spec_add_sub_rest(t, j, add_sub_node(op, acc, r))
            } else {
                Err(perr(t, j, Seq::empty()))
            },
        }
    } else {
        Ok((acc, i))
    }
}

pub open spec fn spec_parse_mul_div(t: Seq<TokenV>, i: int) -> PRes<ExprV>
    decreases t.len() - i, 2nat,
{
    match spec_parse_unary(t, i) {
        Err(e) => Err(e),
        Ok((l, j)) => if adv(t, i, j) {
            spec_mul_div_rest(t, j, l)
        } else {
            Err(perr(t, j, Seq::empty()))
        },
    }
}

pub open spec fn spec_mul_div_rest(t: Seq<TokenV>, i: int, acc: ExprV) -> PRes<ExprV>
    decreases t.len() - i, 2nat,
{
    if kind_at(t, i) is Star || kind_at(t, i) is Slash {
        let op = if kind_at(t, i) is Star {
            BinOp::Mul
        } else {
            BinOp::Div
        };
        match spec_parse_unary(t, i + 1) {
            Err(e) => Err(e),
            Ok((r, j)) => if adv(t, i, j) {
                spec_mul_div_rest(t, j, bin(op, acc, r))
            } else {
                Err(perr(t, j, Seq::empty()))
            },
        }
    } else {
        Ok((acc, i))
    }
}

pub open spec fn spec_parse_unary(t: Seq<TokenV>, i: int) -> PRes<ExprV>
    decreases t.len() - i, 1nat,
{
    if kind_at(t, i) is Bang {
        match spec_parse_unary(t, i + 1) {
            Err(e) => Err(e),
            Ok((e, j)) => Ok((ExprV::Not(Box::new(e)), j)),
        }
    } else {
        spec_parse_primary(t, i)
    }
}

pub open spec fn spec_parse_primary(t: Seq<TokenV>, i: int) -> PRes<ExprV>
    decreases t.len() - i, 0nat,
{
    match kind_at(t, i) {
        TokK::Int(n) => Ok((ExprV::Int(n), i + 1)),
        TokK::Float(d) => Ok((ExprV::Float(d), i + 1)),
        TokK::True => Ok((ExprV::Bool(true), i + 1)),
        TokK::False => Ok((ExprV::Bool(false), i + 1)),
        TokK::Str(s) => Ok((ExprV::Str(s), i + 1)),
        TokK::Ident(s) => {
            if kind_at(t, i + 1) is LParen {
                let k = skip_newlines(t, i + 2);
                if kind_at(t, k) is RParen {
                    Ok((ExprV::Call { callee: s, args: Seq::empty() }, k + 1))
                } else if adv(t, i, k) {
                    match spec_args_list(t, k, Seq::empty()) {
                        Err(e) => Err(e),
                        Ok((args, j)) => if kind_at(t, j) is RParen {
                            Ok((ExprV::Call { callee: s, args }, j + 1))
                        } else {
                            Err(perr(t, j, "expected ')'"@))
                        },
                    }
                } else {
                    Err(perr(t, k, Seq::empty()))
                }
            } else {
                Ok((ExprV::Var(s), i + 1))
            }
        },
        TokK::LParen => match spec_parse_expr(t, i + 1) {
            Err(e) => Err(e),
            Ok((e, j)) => if kind_at(t, j) is RParen {
                Ok((e, j + 1))
            } else {
                Err(perr(t, j, "expected ')'"@))
            },
        },
        _ => Err(perr(t, i, "expected expression"@)),
    }
}

pub open spec fn spec_args_list(t: Seq<TokenV>, i: int, acc: Seq<ExprV>) -> PRes<Seq<ExprV>>
    decreases t.len() - i, 8nat,
{
    match spec_parse_expr(t, i) {
        Err(e) => Err(e),
        Ok((a, j)) => {
            let acc2 = acc.push(a);
            if kind_at(t, j) is Comma {
                let n = skip_newlines(t, j + 1);
                if adv(t, i, n) {
                    spec_args_list(t, n, acc2)
                } else {
                    Err(perr(t, n, Seq::empty()))
                }
            } else {
                Ok((acc2, j))
            }
        },
    }
}

/// `{ stmts }` after the `{`: the statements up to the matching `}`, which
/// is left in place.
pub open spec fn spec_braced_tail(t: Seq<TokenV>, i: int) -> PRes<Seq<StmtV>>
    decreases t.len() - i, 11nat,
{
    let k = skip_newlines(t, i);
    if adv(t, i - 1, k) {
        match spec_block_stmts(t, k, Seq::empty()) {
            Err(e) => Err(e),
            Ok((body, j)) => if kind_at(t, j) is RBrace {
                Ok((body, j + 1))
            } else {
                Err(perr(t, j, "expected '}'"@))
            },
        }
    } else {
        Err(perr(t, k, Seq::empty()))
    }
}

pub open spec fn spec_block_stmts(t: Seq<TokenV>, i: int, acc: Seq<StmtV>) -> PRes<Seq<StmtV>>
    decreases t.len() - i, 10nat,
{
    let k = kind_at(t, i);
    if k is RBrace || k is Eof {
        Ok((acc, i))
    } else if k is Newline {
        let n = skip_newlines(t, i);
        if adv(t, i, n) {
            spec_block_stmts(t, n, acc)
        } else {
            Err(perr(t, n, Seq::empty()))
        }
    } else {
        match spec_parse_stmt(t, i) {
            Err(e) => Err(e),
            Ok((s, j)) => if adv(t, i, j) {
                let acc2 = acc.push(s);
                if kind_at(t, j) is Newline {
                    let n = skip_newlines(t, j);
                    if adv(t, i, n) {
                        spec_block_stmts(t, n, acc2)
                    } else {
                        Err(perr(t, n, Seq::empty()))
                    }
                } else if kind_at(t, j) is RBrace {
                    Ok((acc2, j))
                } else if s is If || s is While {
                    spec_block_stmts(t, j, acc2)
                } else {
                    Err(perr(t, j, "expected newline"@))
                }
            } else {
                Err(perr(t, j, Seq::empty()))
            },
        }
    }
}

pub open spec fn spec_let_stmt(t: Seq<TokenV>, i: int) -> PRes<StmtV>
    decreases t.len() - i, 8nat,
{
    if !(0 <= i < t.len()) {
        Err(perr(t, i, Seq::empty()))
    } else {
        match spec_expect_ident(t, i + 1) {
            Err(e) => Err(e),
            Ok((name, j)) => if kind_at(t, j) is Equal {
                if adv(t, i, j) {
                    match spec_parse_expr(t, j + 1) {
                        Err(e) => Err(e),
                        Ok((e, k)) => Ok((StmtV::Let { name, expr: e }, k)),
                    }
                } else {
                    Err(perr(t, j, Seq::empty()))
                }
            } else {
                Err(perr(t, j, "expected '='"@))
            },
        }
    }
}

pub open spec fn spec_if_stmt(t: Seq<TokenV>, i: int) -> PRes<StmtV>
    decreases t.len() - i, 8nat,
{
    if !(0 <= i < t.len()) {
        Err(perr(t, i, Seq::empty()))
    } else {
        match spec_parse_expr(t, i + 1) {
            Err(e) => Err(e),
            Ok((cond, j)) => if kind_at(t, j) is LBrace && adv(t, i, j) {
                match spec_braced_tail(t, j + 1) {
                    Err(e) => Err(e),
                    Ok((then_body, m)) => if adv(t, i, m) {
                        spec_else_part(t, m, cond, then_body)
                    } else {
                        Err(perr(t, m, Seq::empty()))
                    },
                }
            } else {
                Err(perr(t, j, "expected '{'"@))
            },
        }
    }
}

/// What follows the then-branch of an `if` at `m`: nothing, `else { .. }`, or
/// `else if ..` (which nests the next `if` as the else branch).
pub open spec fn spec_else_part(t: Seq<TokenV>, m: int, cond: ExprV, then_body: Seq<StmtV>) -> PRes<StmtV>
    decreases t.len() - m, 12nat,
{
    if kind_at(t, m) is Else {
        if kind_at(t, m + 1) is If {
            match spec_parse_stmt(t, m + 1) {
                Err(e) => Err(e),
                Ok((s, n)) => Ok((StmtV::If { cond, then_body, else_body: Some(seq![s]) }, n)),
            }
        } else if kind_at(t, m + 1) is LBrace {
            match spec_braced_tail(t, m + 2) {
                Err(e) => Err(e),
                Ok((eb, n)) => Ok((StmtV::If { cond, then_body, else_body: Some(eb) }, n)),
            }
        } else {
            Err(perr(t, m + 1, "expected '{'"@))
        }
    } else {
        Ok((StmtV::If { cond, then_body, else_body: None }, m))
    }
}

pub open spec fn spec_while_stmt(t: Seq<TokenV>, i: int) -> PRes<StmtV>
    decreases t.len() - i, 8nat,
{
    if !(0 <= i < t.len()) {
        Err(perr(t, i, Seq::empty()))
    } else {
        match spec_parse_expr(t, i + 1) {
            Err(e) => Err(e),
            Ok((cond, j)) => if kind_at(t, j) is LBrace && adv(t, i, j) {
                match spec_braced_tail(t, j + 1) {
                    Err(e) => Err(e),
                    Ok((body, m)) => Ok((StmtV::While { cond, body }, m)),
                }
            } else {
                Err(perr(t, j, "expected '{'"@))
            },
        }
    }
}

pub open spec fn spec_ident_stmt(t: Seq<TokenV>, i: int, s: Seq<char>) -> PRes<StmtV>
    decreases t.len() - i, 8nat,
{
    if !(0 <= i < t.len()) {
        Err(perr(t, i, Seq::empty()))
    } else {
        if s == "print"@ {
            if kind_at(t, i + 1) is LParen {
                match spec_parse_expr(t, i + 2) {
                    Err(e) => Err(e),
                    Ok((e, j)) => if kind_at(t, j) is RParen {
                        Ok((StmtV::Print(e), j + 1))
                    } else {
                        Err(perr(t, j, "expected ')'"@))
                    },
                }
            } else {
                Err(perr(t, i + 1, "expected '('"@))
            }
        } else if kind_at(t, i + 1) is ColonEqual {
            match spec_parse_expr(t, i + 2) {
                Err(e) => Err(e),
                Ok((e, j)) => Ok((StmtV::Let { name: s, expr: e }, j)),
            }
        } else {
            match spec_parse_expr(t, i) {
                Err(e) => Err(e),
                Ok((e, j)) => Ok((StmtV::Expr(e), j)),
            }
        }
    }
}

pub open spec fn spec_parse_stmt(t: Seq<TokenV>, i: int) -> PRes<StmtV>
    decreases t.len() - i, 9nat,
{
    match kind_at(t, i) {
        TokK::Let => spec_let_stmt(t, i),
        TokK::Return => match spec_parse_expr(t, i + 1) {
            Err(e) => Err(e),
            Ok((e, j)) => Ok((StmtV::Return(e), j)),
        },
        TokK::If => spec_if_stmt(t, i),
        TokK::While => spec_while_stmt(t, i),
        TokK::Ident(s) => spec_ident_stmt(t, i, s),
        _ => match spec_parse_expr(t, i) {
            Err(e) => Err(e),
            Ok((e, j)) => Ok((StmtV::Expr(e), j)),
        },
    }
}

/// `name(params) type` (the type after an optional `:`).
pub open spec fn spec_sig(t: Seq<TokenV>, i: int) -> PRes<(Seq<char>, Seq<ParamV>, Type)> {
    match spec_expect_ident(t, i) {
        Err(e) => Err(e),
        Ok((name, j)) => if kind_at(t, j) is LParen {
            match spec_params(t, j + 1) {
                Err(e) => Err(e),
                Ok((params, k)) => if kind_at(t, k) is RParen {
                    match spec_type_annot(t, k + 1) {
                        Err(e) => Err(e),
                        Ok((ret_ty, m)) => Ok(((name, params, ret_ty), m)),
                    }
                } else {
                    Err(perr(t, k, "expected ')'"@))
                },
            }
        } else {
            Err(perr(t, j, "expected '('"@))
        },
    }
}

/// `name(params) type { body }` after `fn`.
pub open spec fn spec_parse_fn_rest(t: Seq<TokenV>, i: int) -> PRes<FunctionV> {
    match spec_sig(t, i) {
        Err(e) => Err(e),
        Ok(((name, params, ret_ty), m)) => if kind_at(t, m) is LBrace {
            match spec_braced_tail(t, m + 1) {
                Err(e) => Err(e),
                Ok((body, n)) => Ok((FunctionV { name, params, ret_ty, body }, n)),
            }
        } else {
            Err(perr(t, m, "expected '{'"@))
        },
    }
}

/// `name(params) type` after `import fn`.
pub open spec fn spec_parse_import_rest(t: Seq<TokenV>, i: int) -> PRes<ImportFnV> {
    match spec_sig(t, i) {
        Err(e) => Err(e),
        Ok(((name, params, ret_ty), m)) => Ok((ImportFnV { name, params, ret_ty }, m)),
    }
}

pub open spec fn spec_parse_item(t: Seq<TokenV>, i: int) -> PRes<ItemV> {
    match kind_at(t, i) {
        TokK::Export => if kind_at(t, i + 1) is Fn {
            match spec_parse_fn_rest(t, i + 2) {
                Err(e) => Err(e),
                Ok((f, j)) => Ok((ItemV::ExportFn(f), j)),
            }
        } else {
            Err(perr(t, i + 1, "expected 'fn'"@))
        },
        TokK::Import => if kind_at(t, i + 1) is Fn {
            match spec_parse_import_rest(t, i + 2) {
                Err(e) => Err(e),
                Ok((f, j)) => Ok((ItemV::ImportFn(f), j)),
            }
        } else {
            Err(perr(t, i + 1, "expected 'fn'"@))
        },
        TokK::Fn => match spec_parse_fn_rest(t, i + 1) {
            Err(e) => Err(e),
            Ok((f, j)) => Ok((ItemV::Fn(f), j)),
        },
        _ => Err(perr(t, i, "expected 'export' or 'import' or 'fn'"@)),
    }
}

pub open spec fn spec_items(t: Seq<TokenV>, i: int, acc: Seq<ItemV>) -> Result<
    Seq<ItemV>,
    ParseErrorV,
>
    decreases t.len() - i,
{
    if kind_at(t, i) is Eof {
        Ok(acc)
    } else {
        match spec_parse_item(t, i) {
            Err(e) => Err(e),
            Ok((item, j)) => {
                let n = skip_newlines(t, j);
                if adv(t, i, n) {
                    spec_items(t, n, acc.push(item))
                } else {
                    Err(perr(t, n, Seq::empty()))
                }
            },
        }
    }
}

/// The program that a token sequence parses to, or the first error.
pub open spec fn spec_parse_tokens(t: Seq<TokenV>) -> Result<ProgramV, ParseErrorV> {
    match spec_items(t, skip_newlines(t, 0), Seq::empty()) {
        Ok(items) => Ok(ProgramV { items }),
        Err(e) => Err(e),
    }
}

/// The program a source text parses to, or the first error.
pub open spec fn spec_parse_source(b: Seq<u8>) -> Result<ProgramV, ParseErrorV> {
    spec_parse_tokens(spec_lex(b))
}

/// Which variant a token kind is (its payload aside).
pub open spec fn tag(k: TokK) -> u8 {
    match k {
        TokK::Export => 0,
        TokK::Fn => 1,
        TokK::Let => 2,
        TokK::Return => 3,
        TokK::Import => 4,
        TokK::If => 5,
        TokK::Else => 6,
        TokK::While => 7,
        TokK::True => 8,
        TokK::False => 9,
        TokK::Ident(_) => 10,
        TokK::Int(_) => 11,
        TokK::Float(_) => 12,
        TokK::Str(_) => 13,
        TokK::LParen => 14,
        TokK::RParen => 15,
        TokK::Colon => 16,
        TokK::LBrace => 17,
        TokK::RBrace => 18,
        TokK::Plus => 19,
        TokK::Minus => 20,
        TokK::Star => 21,
        TokK::Slash => 22,
        TokK::Equal => 23,
        TokK::ColonEqual => 24,
        TokK::Comma => 25,
        TokK::EqEq => 26,
        TokK::BangEq => 27,
        TokK::Bang => 28,
        TokK::Lt => 29,
        TokK::LtEq => 30,
        TokK::Gt => 31,
        TokK::GtEq => 32,
        TokK::AndAnd => 33,
        TokK::OrOr => 34,
        TokK::Newline => 35,
        TokK::Eof => 36,
    }
}

// ---------------------------------------------------------------------------
// Implementation
// ---------------------------------------------------------------------------

fn kind_tag(k: &TokenKind) -> (r: u8)
    ensures
        r == tag(k@),
{
    match k {
        TokenKind::Export => 0,
        TokenKind::Fn => 1,
        TokenKind::Let => 2,
        TokenKind::Return => 3,
        TokenKind::Import => 4,
        TokenKind::If => 5,
        TokenKind::Else => 6,
        TokenKind::While => 7,
        TokenKind::True => 8,
        TokenKind::False => 9,
        TokenKind::Ident(_) => 10,
        TokenKind::Int(_) => 11,
        TokenKind::Float(_) => 12,
        TokenKind::Str(_) => 13,
        TokenKind::LParen => 14,
        TokenKind::RParen => 15,
        TokenKind::Colon => 16,
        TokenKind::LBrace => 17,
        TokenKind::RBrace => 18,
        TokenKind::Plus => 19,
        TokenKind::Minus => 20,
        TokenKind::Star => 21,
        TokenKind::Slash => 22,
        TokenKind::Equal => 23,
        TokenKind::ColonEqual => 24,
        TokenKind::Comma => 25,
        TokenKind::EqEq => 26,
        TokenKind::BangEq => 27,
        TokenKind::Bang => 28,
        TokenKind::Lt => 29,
        TokenKind::LtEq => 30,
        TokenKind::Gt => 31,
        TokenKind::GtEq => 32,
        TokenKind::AndAnd => 33,
        TokenKind::OrOr => 34,
        TokenKind::Newline => 35,
        TokenKind::Eof => 36,
    }
}

pub(crate) fn str_is(s: &String, lit: &str) -> (r: bool)
    ensures
        r == (s@ == lit@),
{
    *s == lit.to_owned()
}

pub proof fn lemma_stmts_view_push(s: Seq<Stmt>, x: Stmt)
    ensures
        stmts_view(s.push(x)) == stmts_view(s).push(stmt_view(x)),
{
    crate::ast::lemma_stmts_view(s);
    crate::ast::lemma_stmts_view(s.push(x));
    assert(stmts_view(s.push(x)) =~= stmts_view(s).push(stmt_view(x)));
}

pub proof fn lemma_exprs_view_push(s: Seq<Expr>, x: Expr)
    ensures
        exprs_view(s.push(x)) == exprs_view(s).push(expr_view(x)),
{
    crate::ast::lemma_exprs_view(s);
    crate::ast::lemma_exprs_view(s.push(x));
    assert(exprs_view(s.push(x)) =~= exprs_view(s).push(expr_view(x)));
}

pub open spec fn items_view(s: Seq<Item>) -> Seq<ItemV> {
    s.map_values(|it: Item| it@)
}

pub proof fn lemma_lex_from_ends_eof(b: Seq<u8>, i: int)
    ensures
        crate::lexer::spec_lex_from(b, i).len() > 0,
        crate::lexer::spec_lex_from(b, i).last().kind is Eof,
    decreases b.len() - i,
{
    if 0 <= i < b.len() {
        let r = crate::lexer::step(b, i);
        if i < r.1 <= b.len() {
            lemma_lex_from_ends_eof(b, r.1);
            let rest = crate::lexer::spec_lex_from(b, r.1);
            assert((crate::lexer::opt_seq(r.0) + rest).last() == rest.last());
        }
    }
}

/// `l op r` for `op` in `+ -`; the sum of two string literals is their
/// concatenation.
fn add_sub_expr(op: BinOp, l: Expr, r: Expr) -> (e: Expr)
    ensures
        e@ == add_sub_node(op, l@, r@),
{
    match (op, l, r) {
        (BinOp::Add, Expr::Str(a), Expr::Str(b)) => {
            let mut s = a;
            push_str(&mut s, &b);
            Expr::Str(s)
        },
        (op, l, r) => Expr::Binary { op, left: Box::new(l), right: Box::new(r) },
    }
}

struct Parser {
    tokens: Vec<Token>,
    i: usize,
}

impl Parser {
    spec fn wf(&self) -> bool {
        &&& self.tokens@.len() > 0
        &&& self.tokens@.last().kind is Eof
        &&& self.i < self.tokens@.len()
    }

    spec fn tv(&self) -> Seq<TokenV> {
        tokens_view(self.tokens@)
    }

    fn peek(&self) -> (r: &Token)
        requires
            self.wf(),
        ensures
            *r == self.tokens@[self.i as int],
    {
        &self.tokens[self.i]
    }

    fn err(&self, msg: &str) -> (r: ParseError)
        requires
            self.wf(),
        ensures
            r@ == perr(self.tv(), self.i as int, msg@),
    {
        ParseError { pos: self.peek().pos, message: msg.to_owned() }
    }

    /// Whether the current token has the variant of `kind`.
    fn at(&self, kind: TokenKind) -> (r: bool)
        requires
            self.wf(),
        ensures
            r == (tag(kind_at(self.tv(), self.i as int)) == tag(kind@)),
    {
        kind_tag(&self.peek().kind) == kind_tag(&kind)
    }

    /// Whether the token after the current one has the variant of `kind`.
    fn next_is(&self, kind: TokenKind) -> (r: bool)
        requires
            self.wf(),
        ensures
            r == (tag(kind_at(self.tv(), self.i + 1)) == tag(kind@)),
    {
        if self.i < self.tokens.len() - 1 {
            kind_tag(&self.tokens[self.i + 1].kind) == kind_tag(&kind)
        } else {
            kind_tag(&kind) == 36
        }
    }

    fn at_eof(&self) -> (r: bool)
        requires
            self.wf(),
        ensures
            r == (kind_at(self.tv(), self.i as int) is Eof),
    {
        self.at(TokenKind::Eof)
    }

    fn eat(&mut self, kind: TokenKind) -> (r: bool)
        requires
            old(self).wf(),
            !(kind is Eof),
        ensures
            final(self).wf(),
            final(self).tokens == old(self).tokens,
            r == (tag(kind_at(old(self).tv(), old(self).i as int)) == tag(kind@)),
            final(self).i == if r {
                old(self).i + 1
            } else {
                old(self).i as int
            },
    {
        let _n = self.tokens.len();
        if self.at(kind) {
            self.i = self.i + 1;
            true
        } else {
            false
        }
    }

    fn expect(&mut self, kind: TokenKind, msg: &str) -> (r: Result<(), ParseError>)
        requires
            old(self).wf(),
            !(kind is Eof),
        ensures
            final(self).wf(),
            final(self).tokens == old(self).tokens,
            match r {
                Ok(_) => tag(kind_at(old(self).tv(), old(self).i as int)) == tag(kind@)
                    && final(self).i == old(self).i + 1,
                Err(e) => tag(kind_at(old(self).tv(), old(self).i as int)) != tag(kind@) && e@
                    == perr(old(self).tv(), old(self).i as int, msg@) && final(self).i == old(
                    self,
                ).i,
            },
    {
        if self.eat(kind) {
            Ok(())
        } else {
            Err(self.err(msg))
        }
    }

    fn skip_newlines(&mut self)
        requires
            old(self).wf(),
        ensures
            final(self).wf(),
            final(self).tokens == old(self).tokens,
            final(self).i == skip_newlines(old(self).tv(), old(self).i as int),
            old(self).i <= final(self).i,
            kind_at(old(self).tv(), old(self).i as int) is Newline ==> old(self).i < final(self).i,
    {
        let ghost i0 = self.i as int;
        while self.at(TokenKind::Newline)
            invariant
                self.wf(),
                self.tokens == old(self).tokens,
                i0 <= self.i,
                kind_at(self.tv(), i0) is Newline ==> i0 < self.i || self.i == i0 && kind_at(self.tv(), self.i as int) is Newline,
                skip_newlines(self.tv(), i0) == skip_newlines(self.tv(), self.i as int),
            decreases self.tokens@.len() - self.i,
        {
            let _n = self.tokens.len();
            self.i = self.i + 1;
        }
    }
}

impl Parser {
    fn parse_expr(&mut self) -> (r: Result<Expr, ParseError>)
        requires
            old(self).wf(),
        ensures
            final(self).wf(),
            final(self).tokens == old(self).tokens,
            match r {
                Ok(e) => spec_parse_expr(old(self).tv(), old(self).i as int) == Ok::<_, ParseErrorV>((e@, final(self).i as int))
                    && old(self).i < final(self).i,
                Err(e) => spec_parse_expr(old(self).tv(), old(self).i as int) == Err::<(ExprV, int), _>(e@),
            },
        decreases old(self).tokens@.len() - old(self).i, 7nat,
    {
        self.parse_or()
    }

    #[verifier::spinoff_prover]
    #[verifier::rlimit(30)]
    fn parse_or(&mut self) -> (r: Result<Expr, ParseError>)
        requires
            old(self).wf(),
        ensures
            final(self).wf(),
            final(self).tokens == old(self).tokens,
            match r {
                Ok(e) => spec_parse_or(old(self).tv(), old(self).i as int) == Ok::<_, ParseErrorV>((e@, final(self).i as int))
                    && old(self).i < final(self).i,
                Err(e) => spec_parse_or(old(self).tv(), old(self).i as int) == Err::<(ExprV, int), _>(e@),
            },
        decreases old(self).tokens@.len() - old(self).i, 6nat,
    {
        let ghost i0 = self.i as int;
        let mut expr = self.parse_and()?;
        loop
            invariant
                self.wf(),
                self.tokens == old(self).tokens,
                i0 == old(self).i,
                i0 < self.i,
                spec_parse_or(self.tv(), i0) == spec_or_rest(self.tv(), self.i as int, expr@),
            ensures
                self.wf(),
                self.tokens == old(self).tokens,
                i0 < self.i,
                spec_parse_or(self.tv(), i0) == Ok::<_, ParseErrorV>((expr@, self.i as int)),
            decreases self.tokens@.len() - self.i,
        {
            if !self.at(TokenKind::OrOr) {
                break;
            }
            let ghost ib = self.i as int;
            let ghost acc = expr@;
            assert(kind_at(self.tv(), ib) is OrOr);
            let _n = self.tokens.len();
            self.i = self.i + 1;
            match self.parse_and() {
                Err(e) => {
                    return Err(e);
                },
                Ok(right) => {
                    assert(adv(self.tv(), ib, self.i as int));
                    expr = Expr::Binary { op: BinOp::Or, left: Box::new(expr), right: Box::new(right) };
                },
            }
        }
        Ok(expr)
    }

    fn parse_and(&mut self) -> (r: Result<Expr, ParseError>)
        requires
            old(self).wf(),
        ensures
            final(self).wf(),
            final(self).tokens == old(self).tokens,
            match r {
                Ok(e) => spec_parse_and(old(self).tv(), old(self).i as int) == Ok::<_, ParseErrorV>((e@, final(self).i as int))
                    && old(self).i < final(self).i,
                Err(e) => spec_parse_and(old(self).tv(), old(self).i as int) == Err::<(ExprV, int), _>(e@),
            },
        decreases old(self).tokens@.len() - old(self).i, 5nat,
    {
        let ghost i0 = self.i as int;
        let mut expr = self.parse_compare()?;
        loop
            invariant
                self.wf(),
                self.tokens == old(self).tokens,
                i0 == old(self).i,
                i0 < self.i,
                spec_parse_and(self.tv(), i0) == spec_and_rest(self.tv(), self.i as int, expr@),
            ensures
                self.wf(),
                self.tokens == old(self).tokens,
                i0 < self.i,
                spec_parse_and(self.tv(), i0) == Ok::<_, ParseErrorV>((expr@, self.i as int)),
            decreases self.tokens@.len() - self.i,
        {
            if !self.at(TokenKind::AndAnd) {
                break;
            }
            let ghost ib = self.i as int;
            assert(kind_at(self.tv(), ib) is AndAnd);
            let _n = self.tokens.len();
            self.i = self.i + 1;
            match self.parse_compare() {
                Err(e) => {
                    return Err(e);
                },
                Ok(right) => {
                    assert(adv(self.tv(), ib, self.i as int));
                    expr = Expr::Binary { op: BinOp::And, left: Box::new(expr), right: Box::new(right) };
                },
            }
        }
        Ok(expr)
    }

    /// The comparison operator at the current token, if any.
    fn compare_op_here(&self) -> (r: Option<BinOp>)
        requires
            self.wf(),
        ensures
            match r {
                Some(op) => is_compare(kind_at(self.tv(), self.i as int)) && op == compare_op(
                    kind_at(self.tv(), self.i as int),
                ),
                None => !is_compare(kind_at(self.tv(), self.i as int)),
            },
    {
        match self.peek().kind {
            TokenKind::EqEq => Some(BinOp::Eq),
            TokenKind::BangEq => Some(BinOp::Ne),
            TokenKind::Lt => Some(BinOp::Lt),
            TokenKind::LtEq => Some(BinOp::Le),
            TokenKind::Gt => Some(BinOp::Gt),
            TokenKind::GtEq => Some(BinOp::Ge),
            _ => None,
        }
    }

    fn parse_compare(&mut self) -> (r: Result<Expr, ParseError>)
        requires
            old(self).wf(),
        ensures
            final(self).wf(),
            final(self).tokens == old(self).tokens,
            match r {
                Ok(e) => spec_parse_compare(old(self).tv(), old(self).i as int) == Ok::<_, ParseErrorV>((e@, final(self).i as int))
                    && old(self).i < final(self).i,
                Err(e) => spec_parse_compare(old(self).tv(), old(self).i as int) == Err::<(ExprV, int), _>(e@),
            },
        decreases old(self).tokens@.len() - old(self).i, 4nat,
    {
        let ghost i0 = self.i as int;
        let mut expr = self.parse_add_sub()?;
        loop
            invariant
                self.wf(),
                self.tokens == old(self).tokens,
                i0 == old(self).i,
                i0 < self.i,
                spec_parse_compare(self.tv(), i0) == spec_compare_rest(self.tv(), self.i as int, expr@),
            ensures
                self.wf(),
                self.tokens == old(self).tokens,
                i0 < self.i,
                spec_parse_compare(self.tv(), i0) == Ok::<_, ParseErrorV>((expr@, self.i as int)),
            decreases self.tokens@.len() - self.i,
        {
            let op = match self.compare_op_here() {
                Some(op) => op,
                None => break,
            };
            let _n = self.tokens.len();
            self.i = self.i + 1;
            let right = self.parse_add_sub()?;
            expr = Expr::Binary { op, left: Box::new(expr), right: Box::new(right) };
        }
        Ok(expr)
    }

    fn parse_add_sub(&mut self) -> (r: Result<Expr, ParseError>)
        requires
            old(self).wf(),
        ensures
            final(self).wf(),
            final(self).tokens == old(self).tokens,
            match r {
                Ok(e) => spec_parse_add_sub(old(self).tv(), old(self).i as int) == Ok::<_, ParseErrorV>((e@, final(self).i as int))
                    && old(self).i < final(self).i,
                Err(e) => spec_parse_add_sub(old(self).tv(), old(self).i as int) == Err::<(ExprV, int), _>(e@),
            },
        decreases old(self).tokens@.len() - old(self).i, 3nat,
    {
        let ghost i0 = self.i as int;
        let mut expr = self.parse_mul_div()?;
        loop
            invariant
                self.wf(),
                self.tokens == old(self).tokens,
                i0 == old(self).i,
                i0 < self.i,
                spec_parse_add_sub(self.tv(), i0) == spec_add_sub_rest(self.tv(), self.i as int, expr@),
            ensures
                self.wf(),
                self.tokens == old(self).tokens,
                i0 < self.i,
                spec_parse_add_sub(self.tv(), i0) == Ok::<_, ParseErrorV>((expr@, self.i as int)),
            decreases self.tokens@.len() - self.i,
        {
            let op = if self.at(TokenKind::Plus) {
                BinOp::Add
            } else if self.at(TokenKind::Minus) {
                BinOp::Sub
            } else {
                break;
            };
            let _n = self.tokens.len();
            self.i = self.i + 1;
            let right = self.parse_mul_div()?;
            // string literal concatenation is folded at parse time
            expr = add_sub_expr(op, expr, right);
        }
        Ok(expr)
    }

    fn parse_mul_div(&mut self) -> (r: Result<Expr, ParseError>)
        requires
            old(self).wf(),
        ensures
            final(self).wf(),
            final(self).tokens == old(self).tokens,
            match r {
                Ok(e) => spec_parse_mul_div(old(self).tv(), old(self).i as int) == Ok::<_, ParseErrorV>((e@, final(self).i as int))
                    && old(self).i < final(self).i,
                Err(e) => spec_parse_mul_div(old(self).tv(), old(self).i as int) == Err::<(ExprV, int), _>(e@),
            },
        decreases old(self).tokens@.len() - old(self).i, 2nat,
    {
        let ghost i0 = self.i as int;
        let mut expr = self.parse_unary()?;
        loop
            invariant
                self.wf(),
                self.tokens == old(self).tokens,
                i0 == old(self).i,
                i0 < self.i,
                spec_parse_mul_div(self.tv(), i0) == spec_mul_div_rest(self.tv(), self.i as int, expr@),
            ensures
                self.wf(),
                self.tokens == old(self).tokens,
                i0 < self.i,
                spec_parse_mul_div(self.tv(), i0) == Ok::<_, ParseErrorV>((expr@, self.i as int)),
            decreases self.tokens@.len() - self.i,
        {
            let op = if self.at(TokenKind::Star) {
                BinOp::Mul
            } else if self.at(TokenKind::Slash) {
                BinOp::Div
            } else {
                break;
            };
            let _n = self.tokens.len();
            self.i = self.i + 1;
            let right = self.parse_unary()?;
            expr = Expr::Binary { op, left: Box::new(expr), right: Box::new(right) };
        }
        Ok(expr)
    }

    fn parse_unary(&mut self) -> (r: Result<Expr, ParseError>)
        requires
            old(self).wf(),
        ensures
            final(self).wf(),
            final(self).tokens == old(self).tokens,
            match r {
                Ok(e) => spec_parse_unary(old(self).tv(), old(self).i as int) == Ok::<_, ParseErrorV>((e@, final(self).i as int))
                    && old(self).i < final(self).i,
                Err(e) => spec_parse_unary(old(self).tv(), old(self).i as int) == Err::<(ExprV, int), _>(e@),
            },
        decreases old(self).tokens@.len() - old(self).i, 1nat,
    {
        if self.eat(TokenKind::Bang) {
            let e = self.parse_unary()?;
            Ok(Expr::Not(Box::new(e)))
        } else {
            self.parse_primary()
        }
    }

    fn parse_primary(&mut self) -> (r: Result<Expr, ParseError>)
        requires
            old(self).wf(),
        ensures
            final(self).wf(),
            final(self).tokens == old(self).tokens,
            match r {
                Ok(e) => spec_parse_primary(old(self).tv(), old(self).i as int) == Ok::<_, ParseErrorV>((e@, final(self).i as int))
                    && old(self).i < final(self).i,
                Err(e) => spec_parse_primary(old(self).tv(), old(self).i as int) == Err::<(ExprV, int), _>(e@),
            },
        decreases old(self).tokens@.len() - old(self).i, 0nat,
    {
        let _n = self.tokens.len();
        let tg = kind_tag(&self.peek().kind);
        if tg == 11 || tg == 12 || tg == 8 || tg == 9 || tg == 13 {
            let e = match &self.peek().kind {
                TokenKind::Int(n) => Expr::Int(*n),
                TokenKind::Float(d) => Expr::Float(*d),
                TokenKind::True => Expr::Bool(true),
                TokenKind::False => Expr::Bool(false),
                TokenKind::Str(s) => Expr::Str(s.clone()),
                _ => Expr::Bool(false),
            };
            self.i = self.i + 1;
            Ok(e)
        } else if tg == 10 {
            let name = match &self.peek().kind {
                TokenKind::Ident(s) => s.clone(),
                _ => String::new(),
            };
            self.i = self.i + 1;
            if self.eat(TokenKind::LParen) {
                self.skip_newlines();
                let args = if self.at(TokenKind::RParen) {
                    proof {
                        assert(exprs_view(Seq::<Expr>::empty()) =~= Seq::<ExprV>::empty());
                    }
                    Vec::new()
                } else {
                    self.parse_args()?
                };
                self.expect(TokenKind::RParen, "expected ')'")?;
                Ok(Expr::Call { callee: name, args })
            } else {
                Ok(Expr::Var(name))
            }
        } else if tg == 14 {
            self.i = self.i + 1;
            let e = self.parse_expr()?;
            self.expect(TokenKind::RParen, "expected ')'")?;
            Ok(e)
        } else {
            Err(self.err("expected expression"))
        }
    }
}

impl Parser {
    /// Comma-separated call arguments (newlines allowed after a comma).
    fn parse_args(&mut self) -> (r: Result<Vec<Expr>, ParseError>)
        requires
            old(self).wf(),
        ensures
            final(self).wf(),
            final(self).tokens == old(self).tokens,
            match r {
                Ok(a) => spec_args_list(old(self).tv(), old(self).i as int, Seq::empty()) == Ok::<_, ParseErrorV>((exprs_view(a@), final(self).i as int))
                    && old(self).i < final(self).i,
                Err(e) => spec_args_list(old(self).tv(), old(self).i as int, Seq::empty()) == Err::<(Seq<ExprV>, int), _>(e@),
            },
        decreases old(self).tokens@.len() - old(self).i, 8nat,
    {
        let ghost k = self.i as int;
        let mut args: Vec<Expr> = Vec::new();
        proof {
            assert(exprs_view(Seq::<Expr>::empty()) =~= Seq::<ExprV>::empty());
        }
        loop
            invariant_except_break
                spec_args_list(self.tv(), k, Seq::empty()) == spec_args_list(
                    self.tv(),
                    self.i as int,
                    exprs_view(args@),
                ),
            invariant
                self.wf(),
                self.tokens == old(self).tokens,
                k == old(self).i,
                k <= self.i,
            ensures
                self.wf(),
                self.tokens == old(self).tokens,
                k < self.i,
                spec_args_list(self.tv(), k, Seq::empty()) == Ok::<_, ParseErrorV>(
                    (exprs_view(args@), self.i as int),
                ),
            decreases self.tokens@.len() - self.i,
        {
            let arg = self.parse_expr()?;
            proof {
                lemma_exprs_view_push(args@, arg);
            }
            args.push(arg);
            if self.eat(TokenKind::Comma) {
                self.skip_newlines();
                continue;
            }
            break;
        }
        Ok(args)
    }
}

impl Parser {
    fn parse_type(&mut self) -> (r: Result<Type, ParseError>)
        requires
            old(self).wf(),
        ensures
            final(self).wf(),
            final(self).tokens == old(self).tokens,
            old(self).i <= final(self).i,
            match r {
                Ok(ty) => spec_parse_type(old(self).tv(), old(self).i as int) == Ok::<_, ParseErrorV>((ty, final(self).i as int)),
                Err(e) => spec_parse_type(old(self).tv(), old(self).i as int) == Err::<(Type, int), _>(e@),
            },
    {
        let ty = match &self.peek().kind {
            TokenKind::Ident(s) => {
                if str_is(s, "i32") {
                    Some(Type::I32)
                } else if str_is(s, "f64") {
                    Some(Type::F64)
                } else if str_is(s, "string") {
                    Some(Type::String)
                } else if str_is(s, "void") {
                    Some(Type::Void)
                } else if str_is(s, "bool") {
                    Some(Type::Bool)
                } else {
                    None
                }
            },
            _ => None,
        };
        match ty {
            Some(ty) => {
                let _n = self.tokens.len();
                self.i = self.i + 1;
                Ok(ty)
            },
            None => Err(self.err("expected type")),
        }
    }

    fn type_annot(&mut self) -> (r: Result<Type, ParseError>)
        requires
            old(self).wf(),
        ensures
            final(self).wf(),
            final(self).tokens == old(self).tokens,
            old(self).i <= final(self).i,
            match r {
                Ok(ty) => spec_type_annot(old(self).tv(), old(self).i as int) == Ok::<_, ParseErrorV>((ty, final(self).i as int)),
                Err(e) => spec_type_annot(old(self).tv(), old(self).i as int) == Err::<(Type, int), _>(e@),
            },
    {
        if self.eat(TokenKind::Colon) {
            self.parse_type()
        } else {
            self.parse_type()
        }
    }

    fn expect_ident(&mut self) -> (r: Result<String, ParseError>)
        requires
            old(self).wf(),
        ensures
            final(self).wf(),
            final(self).tokens == old(self).tokens,
            old(self).i <= final(self).i,
            match r {
                Ok(s) => spec_expect_ident(old(self).tv(), old(self).i as int) == Ok::<_, ParseErrorV>((s@, final(self).i as int)),
                Err(e) => spec_expect_ident(old(self).tv(), old(self).i as int) == Err::<(Seq<char>, int), _>(e@),
            },
    {
        let name = match &self.peek().kind {
            TokenKind::Ident(s) => Some(s.clone()),
            _ => None,
        };
        match name {
            Some(s) => {
                let _n = self.tokens.len();
                self.i = self.i + 1;
                Ok(s)
            },
            None => Err(self.err("expected identifier")),
        }
    }

    fn parse_params_ts(&mut self) -> (r: Result<Vec<Param>, ParseError>)
        requires
            old(self).wf(),
        ensures
            final(self).wf(),
            final(self).tokens == old(self).tokens,
            old(self).i <= final(self).i,
            match r {
                Ok(ps) => spec_params(old(self).tv(), old(self).i as int) == Ok::<_, ParseErrorV>((params_view(ps@), final(self).i as int)),
                Err(e) => spec_params(old(self).tv(), old(self).i as int) == Err::<(Seq<ParamV>, int), _>(e@),
            },
    {
        let mut params: Vec<Param> = Vec::new();
        proof {
            assert(params_view(params@) =~= Seq::<ParamV>::empty());
        }
        self.skip_newlines();
        if self.at(TokenKind::RParen) {
            return Ok(params);
        }
        let ghost k = self.i as int;
        loop
            invariant_except_break
                spec_params_list(self.tv(), k, Seq::empty()) == spec_params_list(
                    self.tv(),
                    self.i as int,
                    params_view(params@),
                ),
            invariant
                self.wf(),
                self.tokens == old(self).tokens,
                k == skip_newlines(self.tv(), old(self).i as int),
                old(self).i <= k,
                !(kind_at(self.tv(), k) is RParen),
                k <= self.i,
            ensures
                self.wf(),
                self.tokens == old(self).tokens,
                spec_params_list(self.tv(), k, Seq::empty()) == Ok::<_, ParseErrorV>(
                    (params_view(params@), self.i as int),
                ),
            decreases self.tokens@.len() - self.i,
        {
            let ghost ib = self.i as int;
            let name = self.expect_ident()?;
            let ty = self.type_annot()?;
            let p = Param { name, ty };
            proof {
                assert(params_view(params@.push(p)) =~= params_view(params@).push(p@));
            }
            params.push(p);
            if self.eat(TokenKind::Comma) {
                self.skip_newlines();
                assert(adv(self.tv(), ib, self.i as int));
                continue;
            }
            break;
        }
        Ok(params)
    }

    /// The statements of a block after its `{`, and the closing `}`.
    fn parse_braced_tail(&mut self) -> (r: Result<Vec<Stmt>, ParseError>)
        requires
            old(self).wf(),
        ensures
            final(self).wf(),
            final(self).tokens == old(self).tokens,
            match r {
                Ok(b) => spec_braced_tail(old(self).tv(), old(self).i as int) == Ok::<_, ParseErrorV>((stmts_view(b@), final(self).i as int))
                    && old(self).i < final(self).i,
                Err(e) => spec_braced_tail(old(self).tv(), old(self).i as int) == Err::<(Seq<StmtV>, int), _>(e@),
            },
        decreases old(self).tokens@.len() - old(self).i, 11nat,
    {
        self.skip_newlines();
        let body = self.parse_block_stmts()?;
        self.expect(TokenKind::RBrace, "expected '}'")?;
        Ok(body)
    }

    #[verifier::rlimit(40)]
    fn parse_block_stmts(&mut self) -> (r: Result<Vec<Stmt>, ParseError>)
        requires
            old(self).wf(),
        ensures
            final(self).wf(),
            final(self).tokens == old(self).tokens,
            match r {
                Ok(b) => spec_block_stmts(old(self).tv(), old(self).i as int, Seq::empty()) == Ok::<_, ParseErrorV>((stmts_view(b@), final(self).i as int))
                    && old(self).i <= final(self).i,
                Err(e) => spec_block_stmts(old(self).tv(), old(self).i as int, Seq::empty()) == Err::<(Seq<StmtV>, int), _>(e@),
            },
        decreases old(self).tokens@.len() - old(self).i, 10nat,
    {
        let ghost i0 = self.i as int;
        let mut stmts: Vec<Stmt> = Vec::new();
        proof {
            assert(stmts_view(stmts@) =~= Seq::<StmtV>::empty());
        }
        while !(self.at(TokenKind::RBrace) || self.at_eof())
            invariant
                self.wf(),
                self.tokens == old(self).tokens,
                i0 == old(self).i,
                i0 <= self.i,
                spec_block_stmts(self.tv(), i0, Seq::empty()) == spec_block_stmts(
                    self.tv(),
                    self.i as int,
                    stmts_view(stmts@),
                ),
            decreases self.tokens@.len() - self.i,
        {
            let ghost ib = self.i as int;
            let ghost acc = stmts_view(stmts@);
            if self.at(TokenKind::Newline) {
                self.skip_newlines();
                assert(adv(self.tv(), ib, self.i as int));
                continue;
            }
            let stmt = match self.parse_stmt() {
                Ok(s) => s,
                Err(e) => {
                    return Err(e);
                },
            };
            // if/while end with '}', no newline required after
            let is_block_stmt = match &stmt {
                Stmt::If { .. } => true,
                Stmt::While { .. } => true,
                _ => false,
            };
            proof {
                lemma_stmts_view_push(stmts@, stmt);
                assert(adv(self.tv(), ib, self.i as int));
            }
            stmts.push(stmt);
            // statement separator is newline or '}'
            let ghost j = self.i as int;
            assert(ib < j);
            if self.at(TokenKind::Newline) {
                self.skip_newlines();
                assert(adv(self.tv(), ib, self.i as int));
            } else if self.at(TokenKind::RBrace) {
                // ok
            } else if is_block_stmt {
                // block statements don't need a trailing newline
            } else {
                return Err(self.err("expected newline"));
            }
        }
        Ok(stmts)
    }

    fn parse_let_stmt(&mut self) -> (r: Result<Stmt, ParseError>)
        requires
            old(self).wf(),
            kind_at(old(self).tv(), old(self).i as int) is Let,
        ensures
            final(self).wf(),
            final(self).tokens == old(self).tokens,
            match r {
                Ok(s) => spec_let_stmt(old(self).tv(), old(self).i as int) == Ok::<_, ParseErrorV>((s@, final(self).i as int))
                    && old(self).i < final(self).i,
                Err(e) => spec_let_stmt(old(self).tv(), old(self).i as int) == Err::<(StmtV, int), _>(e@),
            },
        decreases old(self).tokens@.len() - old(self).i, 8nat,
    {
        let _n = self.tokens.len();
        self.i = self.i + 1;
        let name = self.expect_ident()?;
        self.expect(TokenKind::Equal, "expected '='")?;
        let expr = self.parse_expr()?;
        Ok(Stmt::Let { name, expr })
    }

    fn parse_if_stmt(&mut self) -> (r: Result<Stmt, ParseError>)
        requires
            old(self).wf(),
            kind_at(old(self).tv(), old(self).i as int) is If,
        ensures
            final(self).wf(),
            final(self).tokens == old(self).tokens,
            match r {
                Ok(s) => spec_if_stmt(old(self).tv(), old(self).i as int) == Ok::<_, ParseErrorV>((s@, final(self).i as int))
                    && old(self).i < final(self).i,
                Err(e) => spec_if_stmt(old(self).tv(), old(self).i as int) == Err::<(StmtV, int), _>(e@),
            },
        decreases old(self).tokens@.len() - old(self).i, 8nat,
    {
        let _n = self.tokens.len();
        self.i = self.i + 1;
        let cond = self.parse_expr()?;
        self.expect(TokenKind::LBrace, "expected '{'")?;
        let then_body = self.parse_braced_tail()?;
        self.parse_else_part(cond, then_body)
    }

    fn parse_else_part(&mut self, cond: Expr, then_body: Vec<Stmt>) -> (r: Result<Stmt, ParseError>)
        requires
            old(self).wf(),
        ensures
            final(self).wf(),
            final(self).tokens == old(self).tokens,
            match r {
                Ok(s) => spec_else_part(old(self).tv(), old(self).i as int, cond@, stmts_view(then_body@)) == Ok::<_, ParseErrorV>((s@, final(self).i as int))
                    && old(self).i <= final(self).i,
                Err(e) => spec_else_part(old(self).tv(), old(self).i as int, cond@, stmts_view(then_body@)) == Err::<(StmtV, int), _>(e@),
            },
        decreases old(self).tokens@.len() - old(self).i, 12nat,
    {
        let _n = self.tokens.len();
        if !self.at(TokenKind::Else) {
            return Ok(Stmt::If { cond, then_body, else_body: None });
        }
        self.i = self.i + 1;
        if self.at(TokenKind::If) {
            // `else if` chains nest the next `if` as the else branch
            let s = self.parse_stmt()?;
            let mut v: Vec<Stmt> = Vec::new();
            proof {
                lemma_stmts_view_push(v@, s);
                assert(stmts_view(Seq::<Stmt>::empty()) =~= Seq::<StmtV>::empty());
            }
            v.push(s);
            Ok(Stmt::If { cond, then_body, else_body: Some(v) })
        } else {
            self.expect(TokenKind::LBrace, "expected '{'")?;
            let eb = self.parse_braced_tail()?;
            Ok(Stmt::If { cond, then_body, else_body: Some(eb) })
        }
    }

    fn parse_while_stmt(&mut self) -> (r: Result<Stmt, ParseError>)
        requires
            old(self).wf(),
            kind_at(old(self).tv(), old(self).i as int) is While,
        ensures
            final(self).wf(),
            final(self).tokens == old(self).tokens,
            match r {
                Ok(s) => spec_while_stmt(old(self).tv(), old(self).i as int) == Ok::<_, ParseErrorV>((s@, final(self).i as int))
                    && old(self).i < final(self).i,
                Err(e) => spec_while_stmt(old(self).tv(), old(self).i as int) == Err::<(StmtV, int), _>(e@),
            },
        decreases old(self).tokens@.len() - old(self).i, 8nat,
    {
        let _n = self.tokens.len();
        self.i = self.i + 1;
        let cond = self.parse_expr()?;
        self.expect(TokenKind::LBrace, "expected '{'")?;
        let body = self.parse_braced_tail()?;
        Ok(Stmt::While { cond, body })
    }

    #[verifier::rlimit(40)]
    fn parse_ident_stmt(&mut self, name: String) -> (r: Result<Stmt, ParseError>)
        requires
            old(self).wf(),
            kind_at(old(self).tv(), old(self).i as int) == TokK::Ident(name@),
        ensures
            final(self).wf(),
            final(self).tokens == old(self).tokens,
            match r {
                Ok(s) => spec_ident_stmt(old(self).tv(), old(self).i as int, name@) == Ok::<_, ParseErrorV>((s@, final(self).i as int))
                    && old(self).i < final(self).i,
                Err(e) => spec_ident_stmt(old(self).tv(), old(self).i as int, name@) == Err::<(StmtV, int), _>(e@),
            },
        decreases old(self).tokens@.len() - old(self).i, 8nat,
    {
        let _n = self.tokens.len();
        if str_is(&name, "print") {
            // print(<expr>) as statement
            self.i = self.i + 1;
            self.expect(TokenKind::LParen, "expected '('")?;
            let expr = self.parse_expr()?;
            self.expect(TokenKind::RParen, "expected ')'")?;
            Ok(Stmt::Print(expr))
        } else if self.next_is(TokenKind::ColonEqual) {
            // V-ish short declaration: `x := expr`
            self.i = self.i + 2;
            let expr = self.parse_expr()?;
            Ok(Stmt::Let { name, expr })
        } else {
            let expr = self.parse_expr()?;
            Ok(Stmt::Expr(expr))
        }
    }

    fn parse_stmt(&mut self) -> (r: Result<Stmt, ParseError>)
        requires
            old(self).wf(),
        ensures
            final(self).wf(),
            final(self).tokens == old(self).tokens,
            match r {
                Ok(s) => spec_parse_stmt(old(self).tv(), old(self).i as int) == Ok::<_, ParseErrorV>((s@, final(self).i as int))
                    && old(self).i < final(self).i,
                Err(e) => spec_parse_stmt(old(self).tv(), old(self).i as int) == Err::<(StmtV, int), _>(e@),
            },
        decreases old(self).tokens@.len() - old(self).i, 9nat,
    {
        let _n = self.tokens.len();
        let name = match &self.peek().kind {
            TokenKind::Ident(s) => Some(s.clone()),
            _ => None,
        };
        if self.at(TokenKind::Let) {
            self.parse_let_stmt()
        } else if self.at(TokenKind::Return) {
            self.i = self.i + 1;
            let expr = self.parse_expr()?;
            Ok(Stmt::Return(expr))
        } else if self.at(TokenKind::If) {
            self.parse_if_stmt()
        } else if self.at(TokenKind::While) {
            self.parse_while_stmt()
        } else {
            match name {
                Some(name) => self.parse_ident_stmt(name),
                None => {
                    let expr = self.parse_expr()?;
                    Ok(Stmt::Expr(expr))
                },
            }
        }
    }
}

impl Parser {
    fn parse_sig(&mut self) -> (r: Result<(String, Vec<Param>, Type), ParseError>)
        requires
            old(self).wf(),
        ensures
            final(self).wf(),
            final(self).tokens == old(self).tokens,
            match r {
                Ok(x) => spec_sig(old(self).tv(), old(self).i as int) == Ok::<_, ParseErrorV>(((x.0@, params_view(x.1@), x.2), final(self).i as int))
                    && old(self).i < final(self).i,
                Err(e) => spec_sig(old(self).tv(), old(self).i as int) == Err::<((Seq<char>, Seq<ParamV>, Type), int), _>(e@),
            },
    {
        let name = self.expect_ident()?;
        self.expect(TokenKind::LParen, "expected '('")?;
        let params = self.parse_params_ts()?;
        self.expect(TokenKind::RParen, "expected ')'")?;
        // Return type: TS style `: i32` or V style `i32`
        let ret_ty = self.type_annot()?;
        Ok((name, params, ret_ty))
    }

    fn parse_fn_rest(&mut self) -> (r: Result<Function, ParseError>)
        requires
            old(self).wf(),
        ensures
            final(self).wf(),
            final(self).tokens == old(self).tokens,
            match r {
                Ok(f) => spec_parse_fn_rest(old(self).tv(), old(self).i as int) == Ok::<_, ParseErrorV>((f@, final(self).i as int))
                    && old(self).i < final(self).i,
                Err(e) => spec_parse_fn_rest(old(self).tv(), old(self).i as int) == Err::<(FunctionV, int), _>(e@),
            },
    {
        let (name, params, ret_ty) = self.parse_sig()?;
        self.expect(TokenKind::LBrace, "expected '{'")?;
        let body = self.parse_braced_tail()?;
        Ok(Function { name, params, ret_ty, body })
    }

    fn parse_import_fn_rest(&mut self) -> (r: Result<ImportFn, ParseError>)
        requires
            old(self).wf(),
        ensures
            final(self).wf(),
            final(self).tokens == old(self).tokens,
            match r {
                Ok(f) => spec_parse_import_rest(old(self).tv(), old(self).i as int) == Ok::<_, ParseErrorV>((f@, final(self).i as int))
                    && old(self).i < final(self).i,
                Err(e) => spec_parse_import_rest(old(self).tv(), old(self).i as int) == Err::<(ImportFnV, int), _>(e@),
            },
    {
        let (name, params, ret_ty) = self.parse_sig()?;
        Ok(ImportFn { name, params, ret_ty })
    }

    fn expect_fn(&mut self) -> (r: Result<(), ParseError>)
        requires
            old(self).wf(),
        ensures
            final(self).wf(),
            final(self).tokens == old(self).tokens,
            match r {
                Ok(_) => kind_at(old(self).tv(), old(self).i as int) is Fn && final(self).i == old(self).i + 1,
                Err(e) => !(kind_at(old(self).tv(), old(self).i as int) is Fn) && e@ == perr(
                    old(self).tv(),
                    old(self).i as int,
                    "expected 'fn'"@,
                ),
            },
    {
        self.expect(TokenKind::Fn, "expected 'fn'")
    }

    fn parse_fn_after_export(&mut self) -> (r: Result<Function, ParseError>)
        requires
            old(self).wf(),
        ensures
            final(self).wf(),
            final(self).tokens == old(self).tokens,
            match r {
                Ok(f) => kind_at(old(self).tv(), old(self).i as int) is Fn && spec_parse_fn_rest(old(self).tv(), old(self).i + 1) == Ok::<_, ParseErrorV>((f@, final(self).i as int))
                    && old(self).i < final(self).i,
                Err(e) => if kind_at(old(self).tv(), old(self).i as int) is Fn {
                    spec_parse_fn_rest(old(self).tv(), old(self).i + 1) == Err::<(FunctionV, int), _>(e@)
                } else {
                    e@ == perr(old(self).tv(), old(self).i as int, "expected 'fn'"@)
                },
            },
    {
        self.expect_fn()?;
        self.parse_fn_rest()
    }

    fn eat_export(&mut self) -> (r: bool)
        requires
            old(self).wf(),
        ensures
            final(self).wf(),
            final(self).tokens == old(self).tokens,
            r == (kind_at(old(self).tv(), old(self).i as int) is Export),
            final(self).i == if r {
                old(self).i + 1
            } else {
                old(self).i as int
            },
    {
        self.eat(TokenKind::Export)
    }

    fn parse_item(&mut self) -> (r: Result<Item, ParseError>)
        requires
            old(self).wf(),
        ensures
            final(self).wf(),
            final(self).tokens == old(self).tokens,
            match r {
                Ok(it) => spec_parse_item(old(self).tv(), old(self).i as int) == Ok::<_, ParseErrorV>((it@, final(self).i as int))
                    && old(self).i < final(self).i,
                Err(e) => spec_parse_item(old(self).tv(), old(self).i as int) == Err::<(ItemV, int), _>(e@),
            },
    {
        if self.eat_export() {
            let f = self.parse_fn_after_export()?;
            Ok(Item::ExportFn(f))
        } else if self.at(TokenKind::Import) {
            let _n = self.tokens.len();
            self.i = self.i + 1;  // import
            self.expect_fn()?;
            let import = self.parse_import_fn_rest()?;
            Ok(Item::ImportFn(import))
        } else if self.at(TokenKind::Fn) {
            self.expect_fn()?;
            let f = self.parse_fn_rest()?;
            Ok(Item::Fn(f))
        } else {
            Err(self.err("expected 'export' or 'import' or 'fn'"))
        }
    }

    fn parse_program(&mut self) -> (r: Result<Program, ParseError>)
        requires
            old(self).wf(),
            old(self).i == 0,
        ensures
            match r {
                Ok(p) => spec_parse_tokens(old(self).tv()) == Ok::<_, ParseErrorV>(p@),
                Err(e) => spec_parse_tokens(old(self).tv()) == Err::<ProgramV, _>(e@),
            },
    {
        self.skip_newlines();
        let ghost i0 = self.i as int;
        let mut items: Vec<Item> = Vec::new();
        proof {
            assert(items_view(items@) =~= Seq::<ItemV>::empty());
        }
        while !self.at_eof()
            invariant
                self.wf(),
                self.tokens == old(self).tokens,
                i0 == skip_newlines(self.tv(), 0),
                spec_items(self.tv(), i0, Seq::empty()) == spec_items(
                    self.tv(),
                    self.i as int,
                    items_view(items@),
                ),
            decreases self.tokens@.len() - self.i,
        {
            let ghost ib = self.i as int;
            let item = self.parse_item()?;
            self.skip_newlines();
            proof {
                assert(items_view(items@.push(item)) =~= items_view(items@).push(item@));
                assert(adv(self.tv(), ib, self.i as int));
            }
            items.push(item);
        }
        Ok(Program { items })
    }
}

/// Parses a whole source text; the result is exactly `spec_parse_source`
/// of its bytes.
pub fn parse_program(source: &str) -> (r: Result<Program, ParseError>)
    ensures
        match r {
            Ok(p) => spec_parse_source(source.spec_bytes()) == Ok::<_, ParseErrorV>(p@),
            Err(e) => spec_parse_source(source.spec_bytes()) == Err::<ProgramV, _>(e@),
        },
{
    let tokens = lex(source);
    proof {
        lemma_lex_from_ends_eof(source.spec_bytes(), 0);
        assert(tokens_view(tokens@).len() == tokens@.len());
        assert(tokens_view(tokens@)[tokens@.len() - 1] == tokens@[tokens@.len() - 1]@);
    }
    let mut p = Parser { tokens, i: 0 };
    p.parse_program()
}

} // verus!
