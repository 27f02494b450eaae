//! Abstract syntax of a wasmchi program, with the mathematical model of each
//! node (its view) used by the contracts of the lexer, parser and codegen.
use vstd::prelude::*;

verus! {

#[derive(Debug, PartialEq, Eq)]
pub struct Program {
    pub items: Vec<Item>,
}

#[derive(Debug, PartialEq, Eq)]
pub enum Item {
    ExportFn(Function),
    Fn(Function),
    ImportFn(ImportFn),
}

#[derive(Debug, Clone, PartialEq, Eq)]
pub struct ImportFn {
    pub name: String,
    pub params: Vec<Param>,
    pub ret_ty: Type,
}

#[derive(Debug, PartialEq, Eq)]
pub struct Function {
    pub name: String,
    pub params: Vec<Param>,
    pub ret_ty: Type,
    pub body: Vec<Stmt>,
}

#[derive(Debug, Clone, PartialEq, Eq)]
pub struct Param {
    pub name: String,
    pub ty: Type,
}

#[derive(Debug, Clone, Copy, PartialEq, Eq, Structural)]
pub enum Type {
    I32,
    F64,
    Bool,
    String,
    Void,
    JsObj,
}

#[derive(Debug, PartialEq, Eq)]
pub enum Stmt {
    Let { name: String, expr: Expr },
    Return(Expr),
    Print(Expr),
    Expr(Expr),
    If { cond: Expr, then_body: Vec<Stmt>, else_body: Option<Vec<Stmt>> },
    While { cond: Expr, body: Vec<Stmt> },
}

/// A decimal literal `mantissa * 10^exponent / 10^scale` (the digits of
/// `12.50` give mantissa 1250, exponent 0 and scale 2). Digits that do not
/// fit in a `u64` after the leading ones are cut off: dropped fraction
/// digits lower the scale, dropped integer digits raise the exponent.
#[derive(Debug, Clone, Copy, PartialEq, Eq, Structural)]
pub struct Decimal {
    pub mantissa: u64,
    pub scale: usize,
    pub exponent: usize,
}

#[derive(Debug, PartialEq, Eq)]
pub enum Expr {
    Int(i32),
    Float(Decimal),
    Bool(bool),
    Str(String),
    Var(String),
    // Calls
    Call { callee: String, args: Vec<Expr> },
    CallExpr { callee: Box<Expr>, args: Vec<Expr> },
    // Property access
    Dot { base: Box<Expr>, prop: String },
    Binary { op: BinOp, left: Box<Expr>, right: Box<Expr> },
    Not(Box<Expr>),
}

#[derive(Debug, Clone, Copy, PartialEq, Eq, Structural)]
pub enum BinOp {
    Add,
    Sub,
    Mul,
    Div,
    Eq,
    Ne,
    Lt,
    Le,
    Gt,
    Ge,
    And,
    Or,
}

// ---------------------------------------------------------------------------
// Mathematical model
// ---------------------------------------------------------------------------

pub enum ExprV {
    Int(i32),
    Float(Decimal),
    Bool(bool),
    Str(Seq<char>),
    Var(Seq<char>),
    Call { callee: Seq<char>, args: Seq<ExprV> },
    CallExpr { callee: Box<ExprV>, args: Seq<ExprV> },
    Dot { base: Box<ExprV>, prop: Seq<char> },
    Binary { op: BinOp, left: Box<ExprV>, right: Box<ExprV> },
    Not(Box<ExprV>),
}

pub enum StmtV {
    Let { name: Seq<char>, expr: ExprV },
    Return(ExprV),
    Print(ExprV),
    Expr(ExprV),
    If { cond: ExprV, then_body: Seq<StmtV>, else_body: Option<Seq<StmtV>> },
    While { cond: ExprV, body: Seq<StmtV> },
}

pub struct ParamV {
    pub name: Seq<char>,
    pub ty: Type,
}

pub struct FunctionV {
    pub name: Seq<char>,
    pub params: Seq<ParamV>,
    pub ret_ty: Type,
    pub body: Seq<StmtV>,
}

pub struct ImportFnV {
    pub name: Seq<char>,
    pub params: Seq<ParamV>,
    pub ret_ty: Type,
}

pub enum ItemV {
    ExportFn(FunctionV),
    Fn(FunctionV),
    ImportFn(ImportFnV),
}

pub struct ProgramV {
    pub items: Seq<ItemV>,
}

pub open spec fn expr_view(e: Expr) -> ExprV
    decreases e,
{
    match e {
        Expr::Int(n) => ExprV::Int(n),
        Expr::Float(d) => ExprV::Float(d),
        Expr::Bool(b) => ExprV::Bool(b),
        Expr::Str(s) => ExprV::Str(s@),
        Expr::Var(s) => ExprV::Var(s@),
        Expr::Call { callee, args } => ExprV::Call { callee: callee@, args: exprs_view(args@) },
        Expr::CallExpr { callee, args } => ExprV::CallExpr {
            callee: Box::new(expr_view(*callee)),
            args: exprs_view(args@),
        },
        Expr::Dot { base, prop } => ExprV::Dot { base: Box::new(expr_view(*base)), prop: prop@ },
        Expr::Binary { op, left, right } => ExprV::Binary {
            op: op,
            left: Box::new(expr_view(*left)),
            right: Box::new(expr_view(*right)),
        },
        Expr::Not(e) => ExprV::Not(Box::new(expr_view(*e))),
    }
}

pub open spec fn exprs_view(s: Seq<Expr>) -> Seq<ExprV>
    decreases s,
{
    if s.len() == 0 {
        Seq::empty()
    } else {
        seq![expr_view(s[0])] + exprs_view(s.drop_first())
    }
}

impl View for Expr {
    type V = ExprV;

    open spec fn view(&self) -> ExprV {
        expr_view(*self)
    }
}

pub open spec fn stmt_view(s: Stmt) -> StmtV
    decreases s,
{
    match s {
        Stmt::Let { name, expr } => StmtV::Let { name: name@, expr: expr_view(expr) },
        Stmt::Return(e) => StmtV::Return(expr_view(e)),
        Stmt::Print(e) => StmtV::Print(expr_view(e)),
        Stmt::Expr(e) => StmtV::Expr(expr_view(e)),
        Stmt::If { cond, then_body, else_body } => StmtV::If {
            cond: expr_view(cond),
            then_body: stmts_view(then_body@),
            else_body: match else_body {
                Some(b) => Some(stmts_view(b@)),
                None => None,
            },
        },
        Stmt::While { cond, body } => StmtV::While { cond: expr_view(cond), body: stmts_view(body@) },
    }
}

pub open spec fn stmts_view(s: Seq<Stmt>) -> Seq<StmtV>
    decreases s,
{
    if s.len() == 0 {
        Seq::empty()
    } else {
        seq![stmt_view(s[0])] + stmts_view(s.drop_first())
    }
}

impl View for Stmt {
    type V = StmtV;

    open spec fn view(&self) -> StmtV {
        stmt_view(*self)
    }
}

impl View for Param {
    type V = ParamV;

    open spec fn view(&self) -> ParamV {
        ParamV { name: self.name@, ty: self.ty }
    }
}

pub open spec fn params_view(s: Seq<Param>) -> Seq<ParamV> {
    s.map_values(|p: Param| p@)
}

impl View for Function {
    type V = FunctionV;

    open spec fn view(&self) -> FunctionV {
        FunctionV {
            name: self.name@,
            params: params_view(self.params@),
            ret_ty: self.ret_ty,
            body: stmts_view(self.body@),
        }
    }
}

impl View for ImportFn {
    type V = ImportFnV;

    open spec fn view(&self) -> ImportFnV {
        ImportFnV { name: self.name@, params: params_view(self.params@), ret_ty: self.ret_ty }
    }
}

impl View for Item {
    type V = ItemV;

    open spec fn view(&self) -> ItemV {
        match self {
            Item::ExportFn(f) => ItemV::ExportFn(f@),
            Item::Fn(f) => ItemV::Fn(f@),
            Item::ImportFn(f) => ItemV::ImportFn(f@),
        }
    }
}

impl View for Program {
    type V = ProgramV;

    open spec fn view(&self) -> ProgramV {
        ProgramV { items: self.items@.map_values(|it: Item| it@) }
    }
}

pub proof fn lemma_exprs_view(s: Seq<Expr>)
    ensures
        exprs_view(s).len() == s.len(),
        forall|i: int| 0 <= i < s.len() ==> #[trigger] exprs_view(s)[i] == expr_view(s[i]),
    decreases s.len(),
{
    if s.len() > 0 {
        lemma_exprs_view(s.drop_first());
    }
}

pub proof fn lemma_stmts_view(s: Seq<Stmt>)
    ensures
        stmts_view(s).len() == s.len(),
        forall|i: int| 0 <= i < s.len() ==> #[trigger] stmts_view(s)[i] == stmt_view(s[i]),
    decreases s.len(),
{
    if s.len() > 0 {
        lemma_stmts_view(s.drop_first());
    }
}

}
