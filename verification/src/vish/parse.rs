//! Parser of the V-like language: constants and functions at the top
//! level, statements ending in `;`, and binary operators by precedence
//! climbing (`*` binds tightest, then `+ -`, `<< >>`, `&`, `^`, `|`, and
//! the comparisons loosest; operators of one level associate to the left).
use vstd::prelude::*;
use vstd::string::StringSliceAdditionalSpecFns;
use crate::parser::str_is;
use crate::vish::lex::{Spanned, SpannedV, Tok, TokV, lex, rs_lex, spanned_view};

verus! {

#[derive(Debug, Clone, Copy, PartialEq, Eq, Hash, Structural)]
pub enum TypeName {
    I32,
    Void,
}

#[derive(Debug)]
pub struct Program {
    pub consts: Vec<ConstDecl>,
    pub fns: Vec<FnDecl>,
}

#[derive(Debug)]
pub struct ConstDecl {
    pub name: String,
    pub ty: TypeName,
    pub expr: Expr,
}

#[derive(Debug)]
pub struct FnDecl {
    pub exported: bool,
    pub inline: bool,
    pub name: String,
    pub params: Vec<(String, TypeName)>,
    pub ret: TypeName,
    pub body: Vec<Stmt>,
}

#[derive(Debug)]
pub enum Stmt {
    Let { name: String, ty: TypeName, expr: Expr },
    Assign { name: String, expr: Expr },
    If { cond: Expr, then_body: Vec<Stmt>, else_body: Vec<Stmt> },
    While { cond: Expr, body: Vec<Stmt> },
    Return(Option<Expr>),
    Expr(Expr),
}

#[derive(Debug, Clone, Copy, PartialEq, Eq, Structural)]
pub enum BinOp {
    Add,
    Sub,
    Mul,
    And,
    Or,
    Xor,
    Shl,
    Shr,
    Eq,
    Ne,
    Lt,
    Le,
    Gt,
    Ge,
}

#[derive(Debug)]
pub enum Expr {
    Num(i32),
    Var(String),
    Bin { op: BinOp, l: Box<Expr>, r: Box<Expr> },
    Call { name: String, args: Vec<Expr> },
}

/// Why a source text does not parse.
#[derive(Debug)]
pub enum ParseError {
    /// A token other than the one the grammar needs here.
    Expected(Tok),
    /// Not an identifier where one is needed (`None`: end of input).
    ExpectedIdent(Option<Tok>),
    /// A type name other than `i32` and `void`.
    UnknownType(String),
    /// A token with a precedence that is not a binary operator.
    NotAnOp(Tok),
    /// No expression can start with this token (`None`: end of input).
    UnexpectedPrimary(Option<Tok>),
    /// An attribute other than `@inline`.
    UnknownAttribute(String),
    /// A character that starts no token, at the top level.
    LexError,
    /// A token that starts no declaration.
    UnexpectedTopLevel(Tok),
}

// ---------------------------------------------------------------------------
// Model
// ---------------------------------------------------------------------------

pub enum ExprV {
    Num(i32),
    Var(Seq<char>),
    Bin { op: BinOp, l: Box<ExprV>, r: Box<ExprV> },
    Call { name: Seq<char>, args: Seq<ExprV> },
}

pub enum StmtV {
    Let { name: Seq<char>, ty: TypeName, expr: ExprV },
    Assign { name: Seq<char>, expr: ExprV },
    If { cond: ExprV, then_body: Seq<StmtV>, else_body: Seq<StmtV> },
    While { cond: ExprV, body: Seq<StmtV> },
    Return(Option<ExprV>),
    Expr(ExprV),
}

pub struct ConstDeclV {
    pub name: Seq<char>,
    pub ty: TypeName,
    pub expr: ExprV,
}

pub struct FnDeclV {
    pub exported: bool,
    pub inline: bool,
    pub name: Seq<char>,
    pub params: Seq<(Seq<char>, TypeName)>,
    pub ret: TypeName,
    pub body: Seq<StmtV>,
}

pub struct ProgramV {
    pub consts: Seq<ConstDeclV>,
    pub fns: Seq<FnDeclV>,
}

pub enum ParseErrorV {
    Expected(TokV),
    ExpectedIdent(Option<TokV>),
    UnknownType(Seq<char>),
    NotAnOp(TokV),
    UnexpectedPrimary(Option<TokV>),
    UnknownAttribute(Seq<char>),
    LexError,
    UnexpectedTopLevel(TokV),
}

pub open spec fn opt_tok(t: Option<Tok>) -> Option<TokV> {
    match t {
        Some(t) => Some(t@),
        None => None,
    }
}

impl View for ParseError {
    type V = ParseErrorV;

    open spec fn view(&self) -> ParseErrorV {
        match self {
            ParseError::Expected(t) => ParseErrorV::Expected(t@),
            ParseError::ExpectedIdent(t) => ParseErrorV::ExpectedIdent(opt_tok(*t)),
            ParseError::UnknownType(s) => ParseErrorV::UnknownType(s@),
            ParseError::NotAnOp(t) => ParseErrorV::NotAnOp(t@),
            ParseError::UnexpectedPrimary(t) => ParseErrorV::UnexpectedPrimary(opt_tok(*t)),
            ParseError::UnknownAttribute(s) => ParseErrorV::UnknownAttribute(s@),
            ParseError::LexError => ParseErrorV::LexError,
            ParseError::UnexpectedTopLevel(t) => ParseErrorV::UnexpectedTopLevel(t@),
        }
    }
}

pub open spec fn expr_view(e: Expr) -> ExprV
    decreases e,
{
    match e {
        Expr::Num(n) => ExprV::Num(n),
        Expr::Var(s) => ExprV::Var(s@),
        Expr::Bin { op, l, r } => ExprV::Bin {
            op,
            l: Box::new(expr_view(*l)),
            r: Box::new(expr_view(*r)),
        },
        Expr::Call { name, args } => ExprV::Call { name: name@, args: exprs_view(args@) },
    }
}

pub open spec fn exprs_view(s: Seq<Expr>) -> Seq<ExprV>
    decreases s,
{
    if s.len() == 0 {
        Seq::empty()
    } else {
        seq![expr_view(s[0])] + exprs_view(s.drop_first())
    }
}

impl View for Expr {
    type V = ExprV;

    open spec fn view(&self) -> ExprV {
        expr_view(*self)
    }
}

pub open spec fn stmt_view(s: Stmt) -> StmtV
    decreases s,
{
    match s {
        Stmt::Let { name, ty, expr } => StmtV::Let { name: name@, ty, expr: expr_view(expr) },
        Stmt::Assign { name, expr } => StmtV::Assign { name: name@, expr: expr_view(expr) },
        Stmt::If { cond, then_body, else_body } => StmtV::If {
            cond: expr_view(cond),
            then_body: stmts_view(then_body@),
            else_body: stmts_view(else_body@),
        },
        Stmt::While { cond, body } => StmtV::While { cond: expr_view(cond), body: stmts_view(body@) },
        Stmt::Return(e) => StmtV::Return(
            match e {
                Some(e) => Some(expr_view(e)),
                None => None,
            },
        ),
        Stmt::Expr(e) => StmtV::Expr(expr_view(e)),
    }
}

pub open spec fn stmts_view(s: Seq<Stmt>) -> Seq<StmtV>
    decreases s,
{
    if s.len() == 0 {
        Seq::empty()
    } else {
        seq![stmt_view(s[0])] + stmts_view(s.drop_first())
    }
}

impl View for Stmt {
    type V = StmtV;

    open spec fn view(&self) -> StmtV {
        stmt_view(*self)
    }
}

pub open spec fn params_view(ps: Seq<(String, TypeName)>) -> Seq<(Seq<char>, TypeName)> {
    ps.map_values(|p: (String, TypeName)| (p.0@, p.1))
}

impl View for ConstDecl {
    type V = ConstDeclV;

    open spec fn view(&self) -> ConstDeclV {
        ConstDeclV { name: self.name@, ty: self.ty, expr: self.expr@ }
    }
}

impl View for FnDecl {
    type V = FnDeclV;

    open spec fn view(&self) -> FnDeclV {
        FnDeclV {
            exported: self.exported,
            inline: self.inline,
            name: self.name@,
            params: params_view(self.params@),
            ret: self.ret,
            body: stmts_view(self.body@),
        }
    }
}

impl View for Program {
    type V = ProgramV;

    open spec fn view(&self) -> ProgramV {
        ProgramV {
            consts: self.consts@.map_values(|c: ConstDecl| c@),
            fns: self.fns@.map_values(|f: FnDecl| f@),
        }
    }
}

pub proof fn lemma_exprs_view(s: Seq<Expr>)
    ensures
        exprs_view(s).len() == s.len(),
        forall|i: int| 0 <= i < s.len() ==> #[trigger] exprs_view(s)[i] == expr_view(s[i]),
    decreases s.len(),
{
    if s.len() > 0 {
        lemma_exprs_view(s.drop_first());
    }
}

pub proof fn lemma_stmts_view(s: Seq<Stmt>)
    ensures
        stmts_view(s).len() == s.len(),
        forall|i: int| 0 <= i < s.len() ==> #[trigger] stmts_view(s)[i] == stmt_view(s[i]),
    decreases s.len(),
{
    if s.len() > 0 {
        lemma_stmts_view(s.drop_first());
    }
}

proof fn lemma_exprs_view_push(s: Seq<Expr>, e: Expr)
    ensures
        exprs_view(s.push(e)) == exprs_view(s).push(expr_view(e)),
{
    lemma_exprs_view(s);
    lemma_exprs_view(s.push(e));
    assert(exprs_view(s.push(e)) =~= exprs_view(s).push(expr_view(e)));
}

proof fn lemma_stmts_view_push(s: Seq<Stmt>, e: Stmt)
    ensures
        stmts_view(s.push(e)) == stmts_view(s).push(stmt_view(e)),
{
    lemma_stmts_view(s);
    lemma_stmts_view(s.push(e));
    assert(stmts_view(s.push(e)) =~= stmts_view(s).push(stmt_view(e)));
}

// ---------------------------------------------------------------------------
// Specification of the grammar
// ---------------------------------------------------------------------------

pub type PR<T> = Result<(T, int), ParseErrorV>;

pub open spec fn toks(s: Seq<SpannedV>) -> Seq<TokV> {
    s.map_values(|x: SpannedV| x.tok)
}

pub open spec fn tok_at(t: Seq<TokV>, i: int) -> Option<TokV> {
    if 0 <= i < t.len() {
        Some(t[i])
    } else {
        None
    }
}

pub open spec fn is_tok(t: Seq<TokV>, i: int, want: TokV) -> bool {
    tok_at(t, i) == Some(want)
}

pub open spec fn adv(t: Seq<TokV>, i: int, j: int) -> bool {
    i < j <= t.len()
}

pub open spec fn spec_expect(t: Seq<TokV>, i: int, want: TokV) -> PR<()> {
    if is_tok(t, i, want) {
        Ok(((), i + 1))
    } else {
        Err(ParseErrorV::Expected(want))
    }
}

pub open spec fn spec_expect_ident(t: Seq<TokV>, i: int) -> PR<Seq<char>> {
    match tok_at(t, i) {
        Some(TokV::Ident(s)) => Ok((s, i + 1)),
        other => Err(ParseErrorV::ExpectedIdent(other)),
    }
}

pub open spec fn spec_expect_type(t: Seq<TokV>, i: int) -> PR<TypeName> {
    match spec_expect_ident(t, i) {
        Err(e) => Err(e),
        Ok((s, j)) => if s == "i32"@ {
            Ok((TypeName::I32, j))
        } else if s == "void"@ {
            Ok((TypeName::Void, j))
        } else {
            Err(ParseErrorV::UnknownType(s))
        },
    }
}

/// Binding strength of a binary operator token.
pub open spec fn spec_prec(t: TokV) -> Option<u8> {
    match t {
        TokV::Star => Some(70u8),
        TokV::Plus | TokV::Minus => Some(60u8),
        TokV::Shl | TokV::Shr => Some(55u8),
        TokV::Amp => Some(50u8),
        TokV::Caret => Some(45u8),
        TokV::Pipe => Some(40u8),
        TokV::EqEq | TokV::Ne | TokV::Lt | TokV::Le | TokV::Gt | TokV::Ge => Some(30u8),
        _ => None,
    }
}

pub open spec fn spec_to_op(t: TokV) -> Option<BinOp> {
    match t {
        TokV::Plus => Some(BinOp::Add),
        TokV::Minus => Some(BinOp::Sub),
        TokV::Star => Some(BinOp::Mul),
        TokV::Amp => Some(BinOp::And),
        TokV::Pipe => Some(BinOp::Or),
        TokV::Caret => Some(BinOp::Xor),
        TokV::Shl => Some(BinOp::Shl),
        TokV::Shr => Some(BinOp::Shr),
        TokV::EqEq => Some(BinOp::Eq),
        TokV::Ne => Some(BinOp::Ne),
        TokV::Lt => Some(BinOp::Lt),
        TokV::Le => Some(BinOp::Le),
        TokV::Gt => Some(BinOp::Gt),
        TokV::Ge => Some(BinOp::Ge),
        _ => None,
    }
}

pub open spec fn spec_primary(t: Seq<TokV>, i: int) -> PR<ExprV>
    decreases t.len() - i, 0nat,
{
    match tok_at(t, i) {
        Some(TokV::Num(n)) => Ok((ExprV::Num(n), i + 1)),
        Some(TokV::Ident(name)) => if is_tok(t, i + 1, TokV::LParen) {
            if is_tok(t, i + 2, TokV::RParen) {
                Ok((ExprV::Call { name, args: Seq::empty() }, i + 3))
            } else {
                match spec_args(t, i + 2, Seq::empty()) {
                    Err(e) => Err(e),
                    Ok((args, k)) => Ok((ExprV::Call { name, args }, k)),
                }
            }
        } else {
            Ok((ExprV::Var(name), i + 1))
        },
        Some(TokV::LParen) => match spec_expr(t, i + 1, 0) {
            Err(e) => Err(e),
            Ok((e, j)) => match spec_expect(t, j, TokV::RParen) {
                Err(err) => Err(err),
                Ok((_, k)) => Ok((e, k)),
            },
        },
        other => Err(ParseErrorV::UnexpectedPrimary(other)),
    }
}

/// Call arguments from `i`, after those in `acc`, through the `)`.
pub open spec fn spec_args(t: Seq<TokV>, i: int, acc: Seq<ExprV>) -> PR<Seq<ExprV>>
    decreases t.len() - i, 2nat,
{
    match spec_expr(t, i, 0) {
        Err(e) => Err(e),
        Ok((a, j)) => {
            let acc2 = acc.push(a);
            if is_tok(t, j, TokV::RParen) {
                Ok((acc2, j + 1))
            } else {
                match spec_expect(t, j, TokV::Comma) {
                    Err(e) => Err(e),
                    Ok((_, k)) => if adv(t, i, k) {
                        spec_args(t, k, acc2)
                    } else {
                        Err(ParseErrorV::LexError)
                    },
                }
            }
        },
    }
}

/// An expression whose operators all bind at least as tightly as `min`.
pub open spec fn spec_expr(t: Seq<TokV>, i: int, min: u8) -> PR<ExprV>
    decreases t.len() - i, 1nat,
{
    match spec_primary(t, i) {
        Err(e) => Err(e),
        Ok((l, j)) => if adv(t, i, j) {
            spec_expr_rest(t, j, min, l)
        } else {
            Err(ParseErrorV::LexError)
        },
    }
}

/// The operators after the left operand `left`, from `j`.
pub open spec fn spec_expr_rest(t: Seq<TokV>, j: int, min: u8, left: ExprV) -> PR<ExprV>
    decreases t.len() - j, 0nat,
{
    match tok_at(t, j) {
        None => Ok((left, j)),
        Some(tk) => match spec_prec(tk) {
            None => Ok((left, j)),
            Some(pv) => if pv < min {
                Ok((left, j))
            } else {
                match spec_expr(t, j + 1, (pv + 1) as u8) {
                    Err(e) => Err(e),
                    Ok((r, k)) => match spec_to_op(tk) {
                        None => Err(ParseErrorV::NotAnOp(tk)),
                        Some(op) => if adv(t, j, k) {
                            spec_expr_rest(
                                t,
                                k,
                                min,
                                ExprV::Bin { op, l: Box::new(left), r: Box::new(r) },
                            )
                        } else {
                            Err(ParseErrorV::LexError)
                        },
                    },
                }
            },
        },
    }
}

/// A `{ ... }` block.
pub open spec fn spec_block(t: Seq<TokV>, i: int) -> PR<Seq<StmtV>>
    decreases t.len() - i, 5nat,
{
    match spec_expect(t, i, TokV::LBrace) {
        Err(e) => Err(e),
        Ok((_, j)) => spec_block_stmts(t, j, Seq::empty()),
    }
}

/// Statements from `i`, after those in `acc`, through the `}`.
pub open spec fn spec_block_stmts(t: Seq<TokV>, i: int, acc: Seq<StmtV>) -> PR<Seq<StmtV>>
    decreases t.len() - i, 4nat,
{
    if is_tok(t, i, TokV::RBrace) {
        Ok((acc, i + 1))
    } else {
        match spec_stmt(t, i) {
            Err(e) => Err(e),
            Ok((s, j)) => if adv(t, i, j) {
                spec_block_stmts(t, j, acc.push(s))
            } else {
                Err(ParseErrorV::LexError)
            },
        }
    }
}

/// An expression and the `;` after it.
pub open spec fn spec_expr_semi(t: Seq<TokV>, i: int) -> PR<ExprV>
    decreases t.len() - i, 2nat,
{
    match spec_expr(t, i, 0) {
        Err(e) => Err(e),
        Ok((e, j)) => match spec_expect(t, j, TokV::Semi) {
            Err(err) => Err(err),
            Ok((_, k)) => Ok((e, k)),
        },
    }
}

pub open spec fn spec_stmt(t: Seq<TokV>, i: int) -> PR<StmtV>
    decreases t.len() - i, 3nat,
{
    match tok_at(t, i) {
        Some(TokV::Let) => match spec_expect_ident(t, i + 1) {
            Err(e) => Err(e),
            Ok((name, j)) => match spec_expect(t, j, TokV::Colon) {
                Err(e) => Err(e),
                Ok((_, j2)) => match spec_expect_type(t, j2) {
                    Err(e) => Err(e),
                    Ok((ty, k)) => match spec_expect(t, k, TokV::Eq) {
                        Err(e) => Err(e),
                        Ok((_, k2)) => if adv(t, i, k2) {
                            match spec_expr_semi(t, k2) {
                                Err(e) => Err(e),
                                Ok((e, m)) => Ok((StmtV::Let { name, ty, expr: e }, m)),
                            }
                        } else {
                            Err(ParseErrorV::LexError)
                        },
                    },
                },
            },
        },
        Some(TokV::If) => match spec_expr(t, i + 1, 0) {
            Err(e) => Err(e),
            Ok((c, j)) => if adv(t, i, j) {
                match spec_block(t, j) {
                    Err(e) => Err(e),
                    Ok((tb, k)) => if is_tok(t, k, TokV::Else) && adv(t, i, k + 1) {
                        match spec_block(t, k + 1) {
                            Err(e) => Err(e),
                            Ok((eb, m)) => Ok((StmtV::If { cond: c, then_body: tb, else_body: eb }, m)),
                        }
                    } else if is_tok(t, k, TokV::Else) {
                        Err(ParseErrorV::LexError)
                    } else {
                        Ok((StmtV::If { cond: c, then_body: tb, else_body: Seq::empty() }, k))
                    },
                }
            } else {
                Err(ParseErrorV::LexError)
            },
        },
        Some(TokV::While) => match spec_expr(t, i + 1, 0) {
            Err(e) => Err(e),
            Ok((c, j)) => if adv(t, i, j) {
                match spec_block(t, j) {
                    Err(e) => Err(e),
                    Ok((b, k)) => Ok((StmtV::While { cond: c, body: b }, k)),
                }
            } else {
                Err(ParseErrorV::LexError)
            },
        },
        Some(TokV::Return) => if is_tok(t, i + 1, TokV::Semi) {
            Ok((StmtV::Return(None), i + 2))
        } else {
            match spec_expr_semi(t, i + 1) {
                Err(e) => Err(e),
                Ok((e, j)) => Ok((StmtV::Return(Some(e)), j)),
            }
        },
        Some(TokV::Ident(name)) => if is_tok(t, i + 1, TokV::Eq) {
            match spec_expr_semi(t, i + 2) {
                Err(e) => Err(e),
                Ok((e, j)) => Ok((StmtV::Assign { name, expr: e }, j)),
            }
        } else {
            match spec_expr_semi(t, i) {
                Err(e) => Err(e),
                Ok((e, j)) => Ok((StmtV::Expr(e), j)),
            }
        },
        _ => match spec_expr_semi(t, i) {
            Err(e) => Err(e),
            Ok((e, j)) => Ok((StmtV::Expr(e), j)),
        },
    }
}

/// Parameters `name: type` from `i`, after those in `acc`, through the `)`.
pub open spec fn spec_params(t: Seq<TokV>, i: int, acc: Seq<(Seq<char>, TypeName)>) -> PR<
    Seq<(Seq<char>, TypeName)>,
>
    decreases t.len() - i,
{
    match spec_expect_ident(t, i) {
        Err(e) => Err(e),
        Ok((pn, j)) => match spec_expect(t, j, TokV::Colon) {
            Err(e) => Err(e),
            Ok((_, j2)) => match spec_expect_type(t, j2) {
                Err(e) => Err(e),
                Ok((pt, k)) => {
                    let acc2 = acc.push((pn, pt));
                    if is_tok(t, k, TokV::RParen) {
                        Ok((acc2, k + 1))
                    } else {
                        match spec_expect(t, k, TokV::Comma) {
                            Err(e) => Err(e),
                            Ok((_, m)) => if adv(t, i, m) {
                                spec_params(t, m, acc2)
                            } else {
                                Err(ParseErrorV::LexError)
                            },
                        }
                    }
                },
            },
        },
    }
}

/// `[export] [@inline] fn name(params) [: type] { body }`.
pub open spec fn spec_fn_decl(t: Seq<TokV>, i: int) -> PR<FnDeclV> {
    let exported = is_tok(t, i, TokV::Export);
    let i1 = if exported { i + 1 } else { i };
    let attr: PR<bool> = if is_tok(t, i1, TokV::At) {
        match spec_expect_ident(t, i1 + 1) {
            Err(e) => Err(e),
            Ok((a, j)) => if a != "inline"@ {
                Err(ParseErrorV::UnknownAttribute(a))
            } else {
                Ok((true, j))
            },
        }
    } else {
        Ok((false, i1))
    };
    match attr {
        Err(e) => Err(e),
        Ok((inline, i2)) => match spec_expect(t, i2, TokV::Fn) {
            Err(e) => Err(e),
            Ok((_, i3)) => match spec_expect_ident(t, i3) {
                Err(e) => Err(e),
                Ok((name, i4)) => match spec_expect(t, i4, TokV::LParen) {
                    Err(e) => Err(e),
                    Ok((_, i5)) => {
                        let ps: PR<Seq<(Seq<char>, TypeName)>> = if is_tok(t, i5, TokV::RParen) {
                            Ok((Seq::empty(), i5 + 1))
                        } else {
                            spec_params(t, i5, Seq::empty())
                        };
                        match ps {
                            Err(e) => Err(e),
                            Ok((params, i6)) => {
                                let rt: PR<TypeName> = if is_tok(t, i6, TokV::Colon) {
                                    spec_expect_type(t, i6 + 1)
                                } else {
                                    Ok((TypeName::Void, i6))
                                };
                                match rt {
                                    Err(e) => Err(e),
                                    Ok((ret, i7)) => match spec_block(t, i7) {
                                        Err(e) => Err(e),
                                        Ok((body, i8)) => Ok(
                                            (FnDeclV { exported, inline, name, params, ret, body }, i8),
                                        ),
                                    },
                                }
                            },
                        }
                    },
                },
            },
        },
    }
}

/// `const name: type = expr;`.
pub open spec fn spec_const_decl(t: Seq<TokV>, i: int) -> PR<ConstDeclV> {
    match spec_expect(t, i, TokV::Const) {
        Err(e) => Err(e),
        Ok((_, i1)) => match spec_expect_ident(t, i1) {
            Err(e) => Err(e),
            Ok((name, i2)) => match spec_expect(t, i2, TokV::Colon) {
                Err(e) => Err(e),
                Ok((_, i3)) => match spec_expect_type(t, i3) {
                    Err(e) => Err(e),
                    Ok((ty, i4)) => match spec_expect(t, i4, TokV::Eq) {
                        Err(e) => Err(e),
                        Ok((_, i5)) => match spec_expr_semi(t, i5) {
                            Err(e) => Err(e),
                            Ok((expr, i6)) => Ok((ConstDeclV { name, ty, expr }, i6)),
                        },
                    },
                },
            },
        },
    }
}

/// The declarations from `i`, after `consts` and `fns`.
pub open spec fn spec_items(t: Seq<TokV>, i: int, consts: Seq<ConstDeclV>, fns: Seq<FnDeclV>) -> Result<
    ProgramV,
    ParseErrorV,
>
    decreases t.len() - i,
{
    match tok_at(t, i) {
        None => Ok(ProgramV { consts, fns }),
        Some(TokV::Const) => match spec_const_decl(t, i) {
            Err(e) => Err(e),
            Ok((c, j)) => if adv(t, i, j) {
                spec_items(t, j, consts.push(c), fns)
            } else {
                Err(ParseErrorV::LexError)
            },
        },
        Some(TokV::Export) | Some(TokV::Fn) | Some(TokV::At) => match spec_fn_decl(t, i) {
            Err(e) => Err(e),
            Ok((f, j)) => if adv(t, i, j) {
                spec_items(t, j, consts, fns.push(f))
            } else {
                Err(ParseErrorV::LexError)
            },
        },
        Some(TokV::Error) => Err(ParseErrorV::LexError),
        Some(tk) => Err(ParseErrorV::UnexpectedTopLevel(tk)),
    }
}

/// The program a source text parses to, or the first error.
pub open spec fn spec_parse(b: Seq<u8>) -> Result<ProgramV, ParseErrorV> {
    spec_items(toks(rs_lex(b)), 0, Seq::empty(), Seq::empty())
}

// ---------------------------------------------------------------------------
// Implementation
// ---------------------------------------------------------------------------

pub open spec fn tok_tag(t: TokV) -> u8 {
    match t {
        TokV::Fn => 0,
        TokV::Let => 1,
        TokV::If => 2,
        TokV::Else => 3,
        TokV::While => 4,
        TokV::Return => 5,
        TokV::Export => 6,
        TokV::Const => 7,
        TokV::LParen => 8,
        TokV::RParen => 9,
        TokV::LBrace => 10,
        TokV::RBrace => 11,
        TokV::Colon => 12,
        TokV::Semi => 13,
        TokV::Comma => 14,
        TokV::Eq => 15,
        TokV::EqEq => 16,
        TokV::Ne => 17,
        TokV::Le => 18,
        TokV::Ge => 19,
        TokV::Shl => 20,
        TokV::Shr => 21,
        TokV::Plus => 22,
        TokV::Minus => 23,
        TokV::Star => 24,
        TokV::Amp => 25,
        TokV::Pipe => 26,
        TokV::Caret => 27,
        TokV::Lt => 28,
        TokV::Gt => 29,
        TokV::At => 30,
        TokV::Ident(_) => 31,
        TokV::Num(_) => 32,
        TokV::Error => 33,
    }
}

fn tag_of(t: &Tok) -> (r: u8)
    ensures
        r == tok_tag(t@),
{
    match t {
        Tok::Fn => 0,
        Tok::Let => 1,
        Tok::If => 2,
        Tok::Else => 3,
        Tok::While => 4,
        Tok::Return => 5,
        Tok::Export => 6,
        Tok::Const => 7,
        Tok::LParen => 8,
        Tok::RParen => 9,
        Tok::LBrace => 10,
        Tok::RBrace => 11,
        Tok::Colon => 12,
        Tok::Semi => 13,
        Tok::Comma => 14,
        Tok::Eq => 15,
        Tok::EqEq => 16,
        Tok::Ne => 17,
        Tok::Le => 18,
        Tok::Ge => 19,
        Tok::Shl => 20,
        Tok::Shr => 21,
        Tok::Plus => 22,
        Tok::Minus => 23,
        Tok::Star => 24,
        Tok::Amp => 25,
        Tok::Pipe => 26,
        Tok::Caret => 27,
        Tok::Lt => 28,
        Tok::Gt => 29,
        Tok::At => 30,
        Tok::Ident(_) => 31,
        Tok::Num(_) => 32,
        Tok::Error => 33,
    }
}

fn tok_clone(t: &Tok) -> (r: Tok)
    ensures
        r@ == t@,
{
    match t {
        Tok::Fn => Tok::Fn,
        Tok::Let => Tok::Let,
        Tok::If => Tok::If,
        Tok::Else => Tok::Else,
        Tok::While => Tok::While,
        Tok::Return => Tok::Return,
        Tok::Export => Tok::Export,
        Tok::Const => Tok::Const,
        Tok::LParen => Tok::LParen,
        Tok::RParen => Tok::RParen,
        Tok::LBrace => Tok::LBrace,
        Tok::RBrace => Tok::RBrace,
        Tok::Colon => Tok::Colon,
        Tok::Semi => Tok::Semi,
        Tok::Comma => Tok::Comma,
        Tok::Eq => Tok::Eq,
        Tok::EqEq => Tok::EqEq,
        Tok::Ne => Tok::Ne,
        Tok::Le => Tok::Le,
        Tok::Ge => Tok::Ge,
        Tok::Shl => Tok::Shl,
        Tok::Shr => Tok::Shr,
        Tok::Plus => Tok::Plus,
        Tok::Minus => Tok::Minus,
        Tok::Star => Tok::Star,
        Tok::Amp => Tok::Amp,
        Tok::Pipe => Tok::Pipe,
        Tok::Caret => Tok::Caret,
        Tok::Lt => Tok::Lt,
        Tok::Gt => Tok::Gt,
        Tok::At => Tok::At,
        Tok::Ident(s) => Tok::Ident(s.clone()),
        Tok::Num(n) => Tok::Num(*n),
        Tok::Error => Tok::Error,
    }
}

/// Equality of tokens, payloads included.
fn tok_eq(a: &Tok, b: &Tok) -> (r: bool)
    ensures
        r == (a@ == b@),
{
    match (a, b) {
        (Tok::Ident(x), Tok::Ident(y)) => *x == *y,
        (Tok::Num(x), Tok::Num(y)) => *x == *y,
        _ => {
            let r = tag_of(a) == tag_of(b) && tag_of(a) != 31 && tag_of(a) != 32;
            proof {
                if r {
                    assert(a@ == b@);
                }
            }
            r
        },
    }
}

/// The tokens and the position of the next one.
pub struct P {
    pub t: Vec<Spanned>,
    pub i: usize,
}

impl P {
    pub open spec fn tv(&self) -> Seq<TokV> {
        toks(spanned_view(self.t@))
    }

    pub open spec fn wf(&self) -> bool {
        self.i <= self.t@.len()
    }

    fn new(t: Vec<Spanned>) -> (r: Self)
        ensures
            r.t == t,
            r.i == 0,
    {
        Self { t, i: 0 }
    }

    fn peek(&self) -> (r: Option<&Tok>)
        ensures
            match r {
                Some(k) => tok_at(self.tv(), self.i as int) == Some(k@),
                None => tok_at(self.tv(), self.i as int) is None,
            },
    {
        if self.i < self.t.len() {
            Some(&self.t[self.i].tok)
        } else {
            None
        }
    }

    /// The next token, consumed.
    fn take(&mut self) -> (r: Option<Tok>)
        requires
            old(self).wf(),
        ensures
            final(self).wf(),
            final(self).t == old(self).t,
            opt_tok(r) == tok_at(old(self).tv(), old(self).i as int),
            final(self).i == if r is Some {
                old(self).i + 1
            } else {
                old(self).i as int
            },
    {
        if self.i < self.t.len() {
            let k = tok_clone(&self.t[self.i].tok);
            self.i = self.i + 1;
            Some(k)
        } else {
            None
        }
    }

    fn eat(&mut self, want: Tok) -> (r: bool)
        requires
            old(self).wf(),
        ensures
            final(self).wf(),
            final(self).t == old(self).t,
            r == is_tok(old(self).tv(), old(self).i as int, want@),
            final(self).i == if r {
                old(self).i + 1
            } else {
                old(self).i as int
            },
    {
        if self.i < self.t.len() && tok_eq(&self.t[self.i].tok, &want) {
            self.i = self.i + 1;
            true
        } else {
            false
        }
    }

    /// Whether the next token is `want` (nothing is consumed).
    fn at(&self, want: &Tok) -> (r: bool)
        ensures
            r == is_tok(self.tv(), self.i as int, want@),
    {
        self.i < self.t.len() && tok_eq(&self.t[self.i].tok, want)
    }

    fn expect(&mut self, want: Tok) -> (r: Result<(), ParseError>)
        requires
            old(self).wf(),
        ensures
            final(self).wf(),
            final(self).t == old(self).t,
            match r {
                Ok(_) => spec_expect(old(self).tv(), old(self).i as int, want@) == Ok::<
                    _,
                    ParseErrorV,
                >(((), final(self).i as int)),
                Err(e) => spec_expect(old(self).tv(), old(self).i as int, want@) == Err::<
                    ((), int),
                    _,
                >(e@),
            },
    {
        let ghost w = want@;
        if self.eat(tok_clone(&want)) {
            Ok(())
        } else {
            Err(ParseError::Expected(want))
        }
    }

    fn expect_ident(&mut self) -> (r: Result<String, ParseError>)
        requires
            old(self).wf(),
        ensures
            final(self).wf(),
            final(self).t == old(self).t,
            match r {
                Ok(s) => spec_expect_ident(old(self).tv(), old(self).i as int) == Ok::<
                    _,
                    ParseErrorV,
                >((s@, final(self).i as int)),
                Err(e) => spec_expect_ident(old(self).tv(), old(self).i as int) == Err::<
                    (Seq<char>, int),
                    _,
                >(e@),
            },
    {
        match self.take() {
            Some(Tok::Ident(s)) => Ok(s),
            other => Err(ParseError::ExpectedIdent(other)),
        }
    }

    fn expect_type(&mut self) -> (r: Result<TypeName, ParseError>)
        requires
            old(self).wf(),
        ensures
            final(self).wf(),
            final(self).t == old(self).t,
            match r {
                Ok(ty) => spec_expect_type(old(self).tv(), old(self).i as int) == Ok::<
                    _,
                    ParseErrorV,
                >((ty, final(self).i as int)),
                Err(e) => spec_expect_type(old(self).tv(), old(self).i as int) == Err::<
                    (TypeName, int),
                    _,
                >(e@),
            },
    {
        let s = self.expect_ident()?;
        if str_is(&s, "i32") {
            Ok(TypeName::I32)
        } else if str_is(&s, "void") {
            Ok(TypeName::Void)
        } else {
            Err(ParseError::UnknownType(s))
        }
    }
}


/// Binding strength of a binary operator token (see `spec_prec`).
fn prec(t: &Tok) -> (r: Option<u8>)
    ensures
        r == spec_prec(t@),
{
    match t {
        Tok::Star => Some(70),
        Tok::Plus | Tok::Minus => Some(60),
        Tok::Shl | Tok::Shr => Some(55),
        Tok::Amp => Some(50),
        Tok::Caret => Some(45),
        Tok::Pipe => Some(40),
        Tok::EqEq | Tok::Ne | Tok::Lt | Tok::Le | Tok::Gt | Tok::Ge => Some(30),
        _ => None,
    }
}

/// The operator a token stands for (see `spec_to_op`).
fn to_op(t: Tok) -> (r: Result<BinOp, ParseError>)
    ensures
        match r {
            Ok(op) => spec_to_op(t@) == Some(op),
            Err(e) => spec_to_op(t@) is None && e@ == ParseErrorV::NotAnOp(t@),
        },
{
    match t {
        Tok::Plus => Ok(BinOp::Add),
        Tok::Minus => Ok(BinOp::Sub),
        Tok::Star => Ok(BinOp::Mul),
        Tok::Amp => Ok(BinOp::And),
        Tok::Pipe => Ok(BinOp::Or),
        Tok::Caret => Ok(BinOp::Xor),
        Tok::Shl => Ok(BinOp::Shl),
        Tok::Shr => Ok(BinOp::Shr),
        Tok::EqEq => Ok(BinOp::Eq),
        Tok::Ne => Ok(BinOp::Ne),
        Tok::Lt => Ok(BinOp::Lt),
        Tok::Le => Ok(BinOp::Le),
        Tok::Gt => Ok(BinOp::Gt),
        Tok::Ge => Ok(BinOp::Ge),
        other => Err(ParseError::NotAnOp(other)),
    }
}

fn parse_primary(p: &mut P) -> (r: Result<Expr, ParseError>)
    requires
        old(p).wf(),
    ensures
        final(p).wf(),
        final(p).t == old(p).t,
        match r {
            Ok(e) => spec_primary(old(p).tv(), old(p).i as int) == Ok::<_, ParseErrorV>(
                (e@, final(p).i as int),
            ) && old(p).i < final(p).i,
            Err(e) => spec_primary(old(p).tv(), old(p).i as int) == Err::<(ExprV, int), _>(e@),
        },
    decreases old(p).t@.len() - old(p).i, 0nat,
{
    let ghost tv = p.tv();
    let ghost i0 = p.i as int;
    match p.take() {
        Some(Tok::Num(n)) => Ok(Expr::Num(n)),
        Some(Tok::Ident(name)) => {
            if p.eat(Tok::LParen) {
                let mut args: Vec<Expr> = Vec::new();
                if !p.eat(Tok::RParen) {
                    let ghost s0 = p.i as int;
                    proof {
                        lemma_exprs_view(args@);
                        assert(exprs_view(args@) =~= Seq::<ExprV>::empty());
                    }
                    loop
                        invariant_except_break
                            p.wf(),
                            p.t == old(p).t,
                            tv == p.tv(),
                            s0 <= p.i,
                            s0 == i0 + 2,
                            i0 == old(p).i,
                            tv == old(p).tv(),
                            spec_primary(tv, i0) == (match spec_args(tv, s0, Seq::empty()) {
                                Err(e) => Err(e),
                                Ok((args, k)) => Ok((ExprV::Call { name: name@, args }, k)),
                            }),
                            spec_args(tv, s0, Seq::empty()) == spec_args(
                                tv,
                                p.i as int,
                                exprs_view(args@),
                            ),
                        ensures
                            p.wf(),
                            p.t == old(p).t,
                            s0 < p.i,
                            spec_args(tv, s0, Seq::empty()) == Ok::<_, ParseErrorV>(
                                (exprs_view(args@), p.i as int),
                            ),
                        decreases p.t@.len() - p.i,
                    {
                        let ghost ia = p.i as int;
                        let ghost acc = exprs_view(args@);
                        let a = parse_expr(p, 0)?;
                        proof {
                            lemma_exprs_view_push(args@, a);
                        }
                        args.push(a);
                        if p.eat(Tok::RParen) {
                            break;
                        }
                        p.expect(Tok::Comma)?;
                    }
                }
                Ok(Expr::Call { name, args })
            } else {
                Ok(Expr::Var(name))
            }
        },
        Some(Tok::LParen) => {
            let e = parse_expr(p, 0)?;
            p.expect(Tok::RParen)?;
            Ok(e)
        },
        other => Err(ParseError::UnexpectedPrimary(other)),
    }
}

fn parse_expr(p: &mut P, min_prec: u8) -> (r: Result<Expr, ParseError>)
    requires
        old(p).wf(),
    ensures
        final(p).wf(),
        final(p).t == old(p).t,
        match r {
            Ok(e) => spec_expr(old(p).tv(), old(p).i as int, min_prec) == Ok::<_, ParseErrorV>(
                (e@, final(p).i as int),
            ) && old(p).i < final(p).i,
            Err(e) => spec_expr(old(p).tv(), old(p).i as int, min_prec) == Err::<(ExprV, int), _>(
                e@,
            ),
        },
    decreases old(p).t@.len() - old(p).i, 1nat,
{
    let ghost tv = p.tv();
    let ghost i0 = p.i as int;
    let mut left = parse_primary(p)?;
    loop
        invariant_except_break
            p.wf(),
            p.t == old(p).t,
            tv == p.tv(),
            i0 < p.i,
            i0 == old(p).i,
            tv == old(p).tv(),
            spec_expr(tv, i0, min_prec) == spec_expr_rest(tv, p.i as int, min_prec, left@),
        ensures
            p.wf(),
            p.t == old(p).t,
            i0 < p.i,
            spec_expr(tv, i0, min_prec) == Ok::<_, ParseErrorV>((left@, p.i as int)),
        decreases p.t@.len() - p.i,
    {
        let pv = match p.peek() {
            None => 0u8,
            Some(tk) => match prec(tk) {
                None => 0u8,
                Some(pv) => if pv < min_prec {
                    0u8
                } else {
                    pv
                },
            },
        };
        if pv == 0 {
            break;
        }
        let ghost j = p.i as int;
        let op_tok = match p.take() {
            Some(t) => t,
            None => {
                break;
            },
        };
        let right = parse_expr(p, pv + 1)?;
        let op = to_op(op_tok)?;
        left = Expr::Bin { op, l: Box::new(left), r: Box::new(right) };
    }
    Ok(left)
}

fn parse_block(p: &mut P) -> (r: Result<Vec<Stmt>, ParseError>)
    requires
        old(p).wf(),
    ensures
        final(p).wf(),
        final(p).t == old(p).t,
        match r {
            Ok(b) => spec_block(old(p).tv(), old(p).i as int) == Ok::<_, ParseErrorV>(
                (stmts_view(b@), final(p).i as int),
            ) && old(p).i < final(p).i,
            Err(e) => spec_block(old(p).tv(), old(p).i as int) == Err::<(Seq<StmtV>, int), _>(e@),
        },
    decreases old(p).t@.len() - old(p).i, 5nat,
{
    let ghost tv = p.tv();
    let ghost i0 = p.i as int;
    p.expect(Tok::LBrace)?;
    let ghost j0 = p.i as int;
    let mut out: Vec<Stmt> = Vec::new();
    proof {
        lemma_stmts_view(out@);
        assert(stmts_view(out@) =~= Seq::<StmtV>::empty());
    }
    while !p.at(&Tok::RBrace)
        invariant
            p.wf(),
            p.t == old(p).t,
            tv == p.tv(),
            j0 <= p.i,
            j0 == i0 + 1,
            i0 == old(p).i,
            tv == old(p).tv(),
            spec_block(tv, i0) == spec_block_stmts(tv, j0, Seq::empty()),
            spec_block_stmts(tv, j0, Seq::empty()) == spec_block_stmts(
                tv,
                p.i as int,
                stmts_view(out@),
            ),
        decreases p.t@.len() - p.i,
    {
        let s = parse_stmt(p)?;
        proof {
            lemma_stmts_view_push(out@, s);
        }
        out.push(s);
    }
    p.expect(Tok::RBrace)?;
    Ok(out)
}

/// An expression and the `;` after it (see `spec_expr_semi`).
fn parse_expr_semi(p: &mut P) -> (r: Result<Expr, ParseError>)
    requires
        old(p).wf(),
    ensures
        final(p).wf(),
        final(p).t == old(p).t,
        match r {
            Ok(e) => spec_expr_semi(old(p).tv(), old(p).i as int) == Ok::<_, ParseErrorV>(
                (e@, final(p).i as int),
            ) && old(p).i < final(p).i,
            Err(e) => spec_expr_semi(old(p).tv(), old(p).i as int) == Err::<(ExprV, int), _>(e@),
        },
    decreases old(p).t@.len() - old(p).i, 2nat,
{
    let e = parse_expr(p, 0)?;
    p.expect(Tok::Semi)?;
    Ok(e)
}

fn parse_stmt(p: &mut P) -> (r: Result<Stmt, ParseError>)
    requires
        old(p).wf(),
    ensures
        final(p).wf(),
        final(p).t == old(p).t,
        match r {
            Ok(s) => spec_stmt(old(p).tv(), old(p).i as int) == Ok::<_, ParseErrorV>(
                (s@, final(p).i as int),
            ) && old(p).i < final(p).i,
            Err(e) => spec_stmt(old(p).tv(), old(p).i as int) == Err::<(StmtV, int), _>(e@),
        },
    decreases old(p).t@.len() - old(p).i, 3nat,
{
    let ghost tv = p.tv();
    let ghost i0 = p.i as int;
    let tg: u8 = match p.peek() {
        Some(k) => tag_of(k),
        None => 255,
    };
    if tg == 1 {
        p.take();
        let name = p.expect_ident()?;
        p.expect(Tok::Colon)?;
        let ty = p.expect_type()?;
        p.expect(Tok::Eq)?;
        let expr = parse_expr_semi(p)?;
        Ok(Stmt::Let { name, ty, expr })
    } else if tg == 2 {
        p.take();
        let cond = parse_expr(p, 0)?;
        let then_body = parse_block(p)?;
        let else_body = if p.eat(Tok::Else) {
            parse_block(p)?
        } else {
            let v: Vec<Stmt> = Vec::new();
            proof {
                lemma_stmts_view(v@);
                assert(stmts_view(v@) =~= Seq::<StmtV>::empty());
            }
            v
        };
        Ok(Stmt::If { cond, then_body, else_body })
    } else if tg == 4 {
        p.take();
        let cond = parse_expr(p, 0)?;
        let body = parse_block(p)?;
        Ok(Stmt::While { cond, body })
    } else if tg == 5 {
        p.take();
        if p.eat(Tok::Semi) {
            Ok(Stmt::Return(None))
        } else {
            let e = parse_expr_semi(p)?;
            Ok(Stmt::Return(Some(e)))
        }
    } else if tg == 31 {
        let save = p.i;
        let name = match p.take() {
            Some(Tok::Ident(s)) => s,
            _ => String::new(),
        };
        if p.eat(Tok::Eq) {
            let e = parse_expr_semi(p)?;
            Ok(Stmt::Assign { name, expr: e })
        } else {
            p.i = save;
            let e = parse_expr_semi(p)?;
            Ok(Stmt::Expr(e))
        }
    } else {
        let e = parse_expr_semi(p)?;
        Ok(Stmt::Expr(e))
    }
}


proof fn lemma_params_push(ps: Seq<(String, TypeName)>, x: (String, TypeName))
    ensures
        params_view(ps.push(x)) == params_view(ps).push((x.0@, x.1)),
{
    assert(params_view(ps.push(x)) =~= params_view(ps).push((x.0@, x.1)));
}

fn parse_fn(p: &mut P) -> (r: Result<FnDecl, ParseError>)
    requires
        old(p).wf(),
    ensures
        final(p).wf(),
        final(p).t == old(p).t,
        match r {
            Ok(f) => spec_fn_decl(old(p).tv(), old(p).i as int) == Ok::<_, ParseErrorV>(
                (f@, final(p).i as int),
            ) && old(p).i < final(p).i,
            Err(e) => spec_fn_decl(old(p).tv(), old(p).i as int) == Err::<(FnDeclV, int), _>(e@),
        },
{
    let ghost tv = p.tv();
    let ghost i0 = p.i as int;
    let exported = p.eat(Tok::Export);
    let mut inline = false;
    if p.eat(Tok::At) {
        let a = p.expect_ident()?;
        if !str_is(&a, "inline") {
            return Err(ParseError::UnknownAttribute(a));
        }
        inline = true;
    }
    p.expect(Tok::Fn)?;
    let name = p.expect_ident()?;
    p.expect(Tok::LParen)?;
    let ghost i5 = p.i as int;
    let mut params: Vec<(String, TypeName)> = Vec::new();
    assert(params_view(params@) =~= Seq::<(Seq<char>, TypeName)>::empty());
    if !p.eat(Tok::RParen) {
        assert(spec_params(tv, i5, Seq::empty()) is Err ==> spec_fn_decl(tv, i0) == Err::<
            (FnDeclV, int),
            ParseErrorV,
        >(spec_params(tv, i5, Seq::empty())->Err_0));
        loop
            invariant_except_break
                p.wf(),
                p.t == old(p).t,
                tv == p.tv(),
                i5 <= p.i,
                tv == old(p).tv(),
                i0 == old(p).i,
                spec_params(tv, i5, Seq::empty()) is Err ==> spec_fn_decl(tv, i0) == Err::<
                    (FnDeclV, int),
                    ParseErrorV,
                >(spec_params(tv, i5, Seq::empty())->Err_0),
                spec_params(tv, i5, Seq::empty()) == spec_params(
                    tv,
                    p.i as int,
                    params_view(params@),
                ),
            ensures
                p.wf(),
                p.t == old(p).t,
                i5 < p.i,
                spec_params(tv, i5, Seq::empty()) == Ok::<_, ParseErrorV>(
                    (params_view(params@), p.i as int),
                ),
            decreases p.t@.len() - p.i,
        {
            let pn = p.expect_ident()?;
            p.expect(Tok::Colon)?;
            let pt = p.expect_type()?;
            proof {
                lemma_params_push(params@, (pn, pt));
            }
            params.push((pn, pt));
            if p.eat(Tok::RParen) {
                break;
            }
            p.expect(Tok::Comma)?;
        }
    }
    let mut ret = TypeName::Void;
    if p.eat(Tok::Colon) {
        ret = p.expect_type()?;
    }
    let body = parse_block(p)?;
    Ok(FnDecl { exported, inline, name, params, ret, body })
}

fn parse_const(p: &mut P) -> (r: Result<ConstDecl, ParseError>)
    requires
        old(p).wf(),
    ensures
        final(p).wf(),
        final(p).t == old(p).t,
        match r {
            Ok(c) => spec_const_decl(old(p).tv(), old(p).i as int) == Ok::<_, ParseErrorV>(
                (c@, final(p).i as int),
            ) && old(p).i < final(p).i,
            Err(e) => spec_const_decl(old(p).tv(), old(p).i as int) == Err::<(ConstDeclV, int), _>(
                e@,
            ),
        },
{
    p.expect(Tok::Const)?;
    let name = p.expect_ident()?;
    p.expect(Tok::Colon)?;
    let ty = p.expect_type()?;
    p.expect(Tok::Eq)?;
    let expr = parse_expr_semi(p)?;
    Ok(ConstDecl { name, ty, expr })
}

pub open spec fn consts_view(s: Seq<ConstDecl>) -> Seq<ConstDeclV> {
    s.map_values(|c: ConstDecl| c@)
}

pub open spec fn fns_view(s: Seq<FnDecl>) -> Seq<FnDeclV> {
    s.map_values(|f: FnDecl| f@)
}

/// Parses a source text; a number literal above `i32::MAX` is an `Error`
/// token, which no rule of the grammar accepts.
#[verifier::rlimit(40)]
pub fn parse(src: &str) -> (r: Result<Program, ParseError>)
    ensures
        match r {
            Ok(prog) => spec_parse(src.spec_bytes()) == Ok::<_, ParseErrorV>(prog@),
            Err(e) => spec_parse(src.spec_bytes()) == Err::<ProgramV, _>(e@),
        },
{
    let tokens = lex(src);
    let mut p = P::new(tokens);
    let ghost tv = p.tv();
    let mut consts: Vec<ConstDecl> = Vec::new();
    let mut fns: Vec<FnDecl> = Vec::new();
    assert(consts_view(consts@) =~= Seq::<ConstDeclV>::empty());
    assert(fns_view(fns@) =~= Seq::<FnDeclV>::empty());
    while p.i < p.t.len()
        invariant
            p.wf(),
            tv == p.tv(),
            tv == toks(rs_lex(src.spec_bytes())),
            spec_parse(src.spec_bytes()) == spec_items(
                tv,
                p.i as int,
                consts_view(consts@),
                fns_view(fns@),
            ),
        decreases p.t@.len() - p.i,
    {
        let tg = tag_of(&p.t[p.i].tok);
        let ghost c0 = consts_view(consts@);
        let ghost f0 = fns_view(fns@);
        if tg == 7 {
            let c = parse_const(&mut p)?;
            consts.push(c);
            assert(consts_view(consts@) =~= c0.push(c@));
        } else if tg == 6 || tg == 0 || tg == 30 {
            let f = parse_fn(&mut p)?;
            fns.push(f);
            assert(fns_view(fns@) =~= f0.push(f@));
        } else if tg == 33 {
            return Err(ParseError::LexError);
        } else {
            return Err(ParseError::UnexpectedTopLevel(tok_clone(&p.t[p.i].tok)));
        }
    }
    Ok(Program { consts, fns })
}

} // verus!
