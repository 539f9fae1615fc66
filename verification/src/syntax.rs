//! The syntax tree: declarations, statements and expressions.

use vstd::prelude::*;
use crate::value::Operator;

verus! {

/// A top-level declaration.
#[derive(Debug, PartialEq)]
pub enum Decl {
    FnDecl(FnDecl),
}

/// A function: its name, the names of its parameters and its body.
#[derive(Debug, PartialEq)]
pub struct FnDecl {
    pub name: String,
    pub params: Vec<String>,
    pub body: Vec<Stmt>,
}

/// A statement.
#[derive(Debug, PartialEq)]
pub enum Stmt {
    FnCall(FnCall),
    Return(ReturnStmt),
    If(IfStmt),
    While(WhileStmt),
    Assign(AssignStmt),
    Decl(DeclStmt),
}

/// `var = val;`
#[derive(Debug, PartialEq)]
pub struct AssignStmt {
    pub var: String,
    pub val: Expr,
}

/// `let var = val;`
#[derive(Debug, PartialEq)]
pub struct DeclStmt {
    pub var: String,
    pub val: Expr,
}

/// `return expr;`
#[derive(Debug, PartialEq)]
pub struct ReturnStmt {
    pub expr: Expr,
}

/// `if cond { body }`
#[derive(Debug, PartialEq)]
pub struct IfStmt {
    pub cond: Expr,
    pub body: Vec<Stmt>,
}

/// `while cond { body }`
#[derive(Debug, PartialEq)]
pub struct WhileStmt {
    pub cond: Expr,
    pub body: Vec<Stmt>,
}

/// An expression.
#[derive(Debug, PartialEq)]
pub enum Expr {
    Identifier(String),
    NumberLiteral(i32),
    BooleanLiteral(bool),
    StringLiteral(String),
    NullLiteral,
    FnCall(FnCall),
    FieldAccess(FieldAccess),
    ObjectLiteral(Vec<(String, Expr)>),
    ListLiteral(Vec<Expr>),
    Binary(Binary),
    Unary(Unary),
}

/// `obj.field`
#[derive(Debug, PartialEq)]
pub struct FieldAccess {
    pub obj: Box<Expr>,
    pub field: String,
}

/// `left op right`
#[derive(Debug, PartialEq)]
pub struct Binary {
    pub op: Operator,
    pub left: Box<Expr>,
    pub right: Box<Expr>,
}

/// `op expr`
#[derive(Debug, PartialEq)]
pub struct Unary {
    pub op: Operator,
    pub expr: Box<Expr>,
}

/// `name(args)`
#[derive(Debug, PartialEq)]
pub struct FnCall {
    pub name: String,
    pub args: Vec<Expr>,
}

/// The mathematical content of an [`Expr`].
pub enum ExprView {
    Identifier(Seq<char>),
    NumberLiteral(i32),
    BooleanLiteral(bool),
    StringLiteral(Seq<char>),
    NullLiteral,
    FnCall(Seq<char>, Seq<ExprView>),
    FieldAccess(Box<ExprView>, Seq<char>),
    ObjectLiteral(Seq<(Seq<char>, ExprView)>),
    ListLiteral(Seq<ExprView>),
    Binary(Operator, Box<ExprView>, Box<ExprView>),
    Unary(Operator, Box<ExprView>),
}

/// The mathematical content of a [`Stmt`].
pub enum StmtView {
    FnCall(Seq<char>, Seq<ExprView>),
    Return(ExprView),
    If(ExprView, Seq<StmtView>),
    While(ExprView, Seq<StmtView>),
    Assign(Seq<char>, ExprView),
    Decl(Seq<char>, ExprView),
}

/// The mathematical content of a [`FnDecl`].
pub struct FnDeclView {
    pub name: Seq<char>,
    pub params: Seq<Seq<char>>,
    pub body: Seq<StmtView>,
}

/// The mathematical content of a [`Decl`].
pub enum DeclView {
    FnDecl(FnDeclView),
}

/// The views of a sequence of strings.
pub open spec fn strings_view(s: Seq<String>) -> Seq<Seq<char>> {
    Seq::new(s.len(), |i: int| s[i]@)
}

/// The view of an expression.
pub open spec fn expr_view(e: Expr) -> ExprView
    decreases e,
{
    match e {
        Expr::Identifier(name) => ExprView::Identifier(name@),
        Expr::NumberLiteral(n) => ExprView::NumberLiteral(n),
        Expr::BooleanLiteral(b) => ExprView::BooleanLiteral(b),
        Expr::StringLiteral(s) => ExprView::StringLiteral(s@),
        Expr::NullLiteral => ExprView::NullLiteral,
        Expr::FnCall(call) => ExprView::FnCall(call.name@, exprs_view(call.args)),
        Expr::FieldAccess(access) => ExprView::FieldAccess(
            Box::new(expr_view(*access.obj)),
            access.field@,
        ),
        Expr::ObjectLiteral(fields) => ExprView::ObjectLiteral(
            Seq::new(
                fields.len() as nat,
                |i: int|
                    if 0 <= i < fields.len() {
                        (fields[i].0@, expr_view(fields[i].1))
                    } else {
                        (Seq::empty(), ExprView::NullLiteral)
                    },
            ),
        ),
        Expr::ListLiteral(items) => ExprView::ListLiteral(exprs_view(items)),
        Expr::Binary(binary) => ExprView::Binary(
            binary.op,
            Box::new(expr_view(*binary.left)),
            Box::new(expr_view(*binary.right)),
        ),
        Expr::Unary(unary) => ExprView::Unary(unary.op, Box::new(expr_view(*unary.expr))),
    }
}

/// The views of a vector of expressions.
pub open spec fn exprs_view(exprs: Vec<Expr>) -> Seq<ExprView>
    decreases exprs,
{
    Seq::new(
        exprs.len() as nat,
        |i: int|
            if 0 <= i < exprs.len() {
                expr_view(exprs[i])
            } else {
                ExprView::NullLiteral
            },
    )
}

/// The view of a statement.
pub open spec fn stmt_view(s: Stmt) -> StmtView
    decreases s,
{
    match s {
        Stmt::FnCall(call) => StmtView::FnCall(call.name@, exprs_view(call.args)),
        Stmt::Return(ret) => StmtView::Return(expr_view(ret.expr)),
        Stmt::If(stmt) => StmtView::If(expr_view(stmt.cond), stmts_view(stmt.body)),
        Stmt::While(stmt) => StmtView::While(expr_view(stmt.cond), stmts_view(stmt.body)),
        Stmt::Assign(stmt) => StmtView::Assign(stmt.var@, expr_view(stmt.val)),
        Stmt::Decl(stmt) => StmtView::Decl(stmt.var@, expr_view(stmt.val)),
    }
}

/// The views of a vector of statements.
pub open spec fn stmts_view(stmts: Vec<Stmt>) -> Seq<StmtView>
    decreases stmts,
{
    Seq::new(
        stmts.len() as nat,
        |i: int|
            if 0 <= i < stmts.len() {
                stmt_view(stmts[i])
            } else {
                StmtView::Return(ExprView::NullLiteral)
            },
    )
}

/// The views of a vector of declarations.
pub open spec fn decls_view(decls: Vec<Decl>) -> Seq<DeclView> {
    Seq::new(decls.len() as nat, |i: int| decls[i]@)
}

/// The view of a statement, by its kind.
pub proof fn lemma_stmt_view(s: Stmt)
    ensures
        s@ == match s {
            Stmt::FnCall(call) => StmtView::FnCall(call.name@, exprs_view(call.args)),
            Stmt::Return(ret) => StmtView::Return(ret.expr@),
            Stmt::If(stmt) => StmtView::If(stmt.cond@, stmts_view(stmt.body)),
            Stmt::While(stmt) => StmtView::While(stmt.cond@, stmts_view(stmt.body)),
            Stmt::Assign(stmt) => StmtView::Assign(stmt.var@, stmt.val@),
            Stmt::Decl(stmt) => StmtView::Decl(stmt.var@, stmt.val@),
        },
{
}

/// The view of a call, of an operation and of an object literal.
pub proof fn lemma_expr_view(e: Expr)
    ensures
        e matches Expr::FnCall(call) ==> e@ == ExprView::FnCall(call.name@, exprs_view(call.args)),
        e matches Expr::Binary(binary) ==> e@ == ExprView::Binary(
            binary.op,
            Box::new(binary.left@),
            Box::new(binary.right@),
        ),
        e matches Expr::ObjectLiteral(fields) ==> e@ == ExprView::ObjectLiteral(
            Seq::new(fields.len() as nat, |i: int| (fields[i].0@, fields[i].1@)),
        ),
{
    match e {
        Expr::ObjectLiteral(fields) => {
            assert(e@->ObjectLiteral_0 =~= Seq::new(
                fields.len() as nat,
                |i: int| (fields[i].0@, fields[i].1@),
            ));
        },
        _ => {},
    }
}

impl View for Expr {
    type V = ExprView;

    open spec fn view(&self) -> ExprView {
        expr_view(*self)
    }
}

impl View for Stmt {
    type V = StmtView;

    open spec fn view(&self) -> StmtView {
        stmt_view(*self)
    }
}

impl View for FnDecl {
    type V = FnDeclView;

    open spec fn view(&self) -> FnDeclView {
        FnDeclView {
            name: self.name@,
            params: strings_view(self.params@),
            body: stmts_view(self.body),
        }
    }
}

impl View for Decl {
    type V = DeclView;

    open spec fn view(&self) -> DeclView {
        match self {
            Decl::FnDecl(decl) => DeclView::FnDecl(decl@),
        }
    }
}

} // verus!
