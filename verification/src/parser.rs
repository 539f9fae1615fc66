//! The parser: reads a sequence of tokens as the grammar says.

use vstd::prelude::*;
use crate::grammar::{
    expect, kind_at, parse_assign, parse_binary_expr, parse_body,
    parse_decl, parse_decls, parse_expr, parse_expr_list, parse_expr_then, parse_exprs,
    parse_field, parse_fn_call, parse_fn_decl, parse_guarded_body, parse_if_stmt,
    parse_let_stmt, parse_more_fields,
    parse_object_fields, parse_operators, parse_param_names, parse_params, parse_primary_expr,
    parse_program, parse_return_stmt, parse_return_value, parse_simple_stmt, parse_stmt,
    parse_while_stmt, remaining, Parsed,
};
use crate::lexer::{tokens_view, Token, TokenKind, TokenView};
use crate::syntax::{
    decls_view, exprs_view, lemma_expr_view, lemma_stmt_view, stmts_view, strings_view,
    AssignStmt, Binary, Decl,
    DeclStmt, DeclView, Expr, ExprView, FnCall, FnDecl, FnDeclView, IfStmt, ReturnStmt, Stmt,
    StmtView, WhileStmt,
};
use crate::text::{parse_decimal, string_from_chars, to_chars};
use crate::value::Operator;

pub use crate::grammar::ParseError;

verus! {

/// Whether what the parser gave and where it stands is what the grammar says.
pub open spec fn agrees<V>(
    expected: Parsed<V>,
    got: Result<V, ParseError>,
    before: int,
    after: int,
) -> bool {
    match expected {
        Ok((v, taken)) => got == Ok::<V, ParseError>(v) && after == before + taken,
        Err(e) => got == Err::<V, ParseError>(e),
    }
}

/// What has been read and what reading on gives, taken together.
pub open spec fn extend<V>(done: Seq<V>, taken: nat, rest: Parsed<Seq<V>>) -> Parsed<Seq<V>> {
    match rest {
        Ok((more, n)) => Ok((done + more, taken + n)),
        Err(e) => Err(e),
    }
}

/// The view of a parsed expression.
pub open spec fn expr_out(r: Result<Expr, ParseError>) -> Result<ExprView, ParseError> {
    match r {
        Ok(e) => Ok(e@),
        Err(e) => Err(e),
    }
}

/// The view of parsed expressions.
pub open spec fn exprs_out(r: Result<Vec<Expr>, ParseError>) -> Result<Seq<ExprView>, ParseError> {
    match r {
        Ok(e) => Ok(exprs_view(e)),
        Err(e) => Err(e),
    }
}

/// The view of a parsed statement.
pub open spec fn stmt_out(r: Result<Stmt, ParseError>) -> Result<StmtView, ParseError> {
    match r {
        Ok(s) => Ok(s@),
        Err(e) => Err(e),
    }
}

/// The view of parsed statements.
pub open spec fn stmts_out(r: Result<Vec<Stmt>, ParseError>) -> Result<Seq<StmtView>, ParseError> {
    match r {
        Ok(s) => Ok(stmts_view(s)),
        Err(e) => Err(e),
    }
}

/// The view of parsed names.
pub open spec fn names_out(r: Result<Vec<String>, ParseError>) -> Result<
    Seq<Seq<char>>,
    ParseError,
> {
    match r {
        Ok(s) => Ok(strings_view(s@)),
        Err(e) => Err(e),
    }
}

/// The view of a parsed call.
pub open spec fn call_out(r: Result<FnCall, ParseError>) -> Result<
    (Seq<char>, Seq<ExprView>),
    ParseError,
> {
    match r {
        Ok(c) => Ok((c.name@, exprs_view(c.args))),
        Err(e) => Err(e),
    }
}

/// The view of a parsed name and expression.
pub open spec fn pair_out(r: Result<(String, Expr), ParseError>) -> Result<
    (Seq<char>, ExprView),
    ParseError,
> {
    match r {
        Ok(p) => Ok((p.0@, p.1@)),
        Err(e) => Err(e),
    }
}

/// The views of the fields of an object literal.
pub open spec fn fields_view(fields: Vec<(String, Expr)>) -> Seq<(Seq<char>, ExprView)> {
    Seq::new(fields.len() as nat, |i: int| (fields[i].0@, fields[i].1@))
}

/// The view of parsed fields.
pub open spec fn fields_out(r: Result<Vec<(String, Expr)>, ParseError>) -> Result<
    Seq<(Seq<char>, ExprView)>,
    ParseError,
> {
    match r {
        Ok(f) => Ok(fields_view(f)),
        Err(e) => Err(e),
    }
}

/// The view of a parsed condition and body.
pub open spec fn guarded_out(r: Result<(Expr, Vec<Stmt>), ParseError>) -> Result<
    (ExprView, Seq<StmtView>),
    ParseError,
> {
    match r {
        Ok(p) => Ok((p.0@, stmts_view(p.1))),
        Err(e) => Err(e),
    }
}

/// The view of a parsed function declaration.
pub open spec fn fn_decl_out(r: Result<FnDecl, ParseError>) -> Result<FnDeclView, ParseError> {
    match r {
        Ok(d) => Ok(d@),
        Err(e) => Err(e),
    }
}

/// The view of a parsed declaration.
pub open spec fn decl_out(r: Result<Decl, ParseError>) -> Result<DeclView, ParseError> {
    match r {
        Ok(d) => Ok(d@),
        Err(e) => Err(e),
    }
}

/// The view of a parsed program.
pub open spec fn decls_out(r: Result<Vec<Decl>, ParseError>) -> Result<Seq<DeclView>, ParseError> {
    match r {
        Ok(d) => Ok(decls_view(d)),
        Err(e) => Err(e),
    }
}

/// The parser: the tokens and the place reached in them.
#[derive(Debug)]
pub struct Parser {
    tokens: Vec<Token>,
    position: usize,
}

impl Parser {
    /// The tokens.
    pub closed spec fn tokens(&self) -> Seq<TokenView> {
        tokens_view(self.tokens@)
    }

    /// The place reached in the tokens.
    pub closed spec fn position(&self) -> int {
        self.position as int
    }

    /// A parser at the start of `tokens`.
    pub fn new(tokens: Vec<Token>) -> (parser: Parser)
        ensures
            parser.tokens() == tokens_view(tokens@),
            parser.position() == 0,
    {
        Parser { tokens, position: 0 }
    }

    fn current(&self) -> (r: Option<&Token>)
        ensures
            match r {
                Some(t) => 0 <= self.position() < self.tokens().len() && t@ == self.tokens()[
                    self.position()
                ],
                None => self.position() >= self.tokens().len(),
            },
            r.is_some() == kind_at(self.tokens(), self.position()).is_some(),
    {
        if self.position < self.tokens.len() {
            Some(&self.tokens[self.position])
        } else {
            None
        }
    }

    fn current_kind(&self) -> (r: Option<TokenKind>)
        ensures
            r == kind_at(self.tokens(), self.position()),
    {
        match self.current() {
            Some(t) => Some(t.kind),
            None => None,
        }
    }

    fn peek(&self, offset: isize) -> (r: Option<&Token>)
        ensures
            match r {
                Some(t) => 0 <= self.position() + offset < self.tokens().len() && t@
                    == self.tokens()[self.position() + offset],
                None => !(0 <= self.position() + offset < self.tokens().len()),
            },
    {
        let index: i128 = self.position as i128 + offset as i128;
        if 0 <= index && index < self.tokens.len() as i128 {
            Some(&self.tokens[index as usize])
        } else {
            None
        }
    }

    fn peek_kind(&self, offset: isize) -> (r: Option<TokenKind>)
        ensures
            r == kind_at(self.tokens(), self.position() + offset),
    {
        match self.peek(offset) {
            Some(t) => Some(t.kind),
            None => None,
        }
    }

    fn advance(&mut self)
        requires
            old(self).position() < old(self).tokens().len(),
        ensures
            final(self).position() == old(self).position() + 1,
            final(self).tokens() == old(self).tokens(),
    {
        assert(self.tokens@.len() == self.tokens.len());
        self.position = self.position + 1;
    }

    /// Takes the current token, which has to be of kind `kind`, and returns
    /// its place.
    fn consume(&mut self, kind: TokenKind) -> (r: Result<usize, ParseError>)
        ensures
            final(self).tokens() == old(self).tokens(),
            match expect(old(self).tokens(), old(self).position(), kind) {
                Ok(t) => r == Ok::<usize, ParseError>(old(self).position() as usize)
                    && final(self).position() == old(self).position() + 1 && 0 <= old(
                    self,
                ).position() < old(self).tokens().len() && t == final(self).tokens@[old(
                    self,
                ).position()]@,
                Err(e) => r == Err::<usize, ParseError>(e),
            },
    {
        let found = match self.current() {
            Some(t) => t.kind,
            None => {
                return Err(ParseError::EndOfFile);
            },
        };
        let at = self.position;
        self.advance();
        if kind == found {
            Ok(at)
        } else {
            Err(ParseError::ExpectedToken(kind, found))
        }
    }

    /// Takes the current token, which has to be of kind `kind`, and returns
    /// its text.
    fn consume_text(&mut self, kind: TokenKind) -> (r: Result<String, ParseError>)
        ensures
            final(self).tokens() == old(self).tokens(),
            match expect(old(self).tokens(), old(self).position(), kind) {
                Ok(t) => r matches Ok(text) && text@ == t.text && final(self).position() == old(
                    self,
                ).position() + 1,
                Err(e) => r == Err::<String, ParseError>(e),
            },
    {
        match self.consume(kind) {
            Ok(at) => Ok(self.tokens[at].text.clone()),
            Err(e) => Err(e),
        }
    }

    /// Reads the program: the declarations up to the end-of-input token.
    pub fn parse(self) -> (r: Result<Vec<Decl>, ParseError>)
        ensures
            decls_out(r) == parse_decls(self.tokens(), self.position()),
    {
        let mut parser = self;
        let ghost ts = parser.tokens();
        let ghost goal = parse_decls(self.tokens(), self.position());
        let mut decls: Vec<Decl> = Vec::new();
        assert(decls_view(decls) =~= Seq::<DeclView>::empty());
        loop
            invariant
                parser.tokens() == ts,
                goal == parse_decls(self.tokens(), self.position()),
                goal == match parse_decls(ts, parser.position()) {
                    Ok(rest) => Ok(decls_view(decls) + rest),
                    Err(e) => Err(e),
                },
            ensures
                goal == Ok::<Seq<DeclView>, ParseError>(decls_view(decls)),
            decreases remaining(ts, parser.position()),
        {
            let ghost pos = parser.position();
            let ghost done = decls_view(decls);
            match parser.current_kind() {
                None => {
                    assert(done + Seq::<DeclView>::empty() =~= done);
                    break ;
                },
                Some(TokenKind::EndOfFile) => {
                    assert(done + Seq::<DeclView>::empty() =~= done);
                    break ;
                },
                Some(_) => {},
            }
            match parser.parse_decl() {
                Ok(decl) => {
                    decls.push(decl);
                    proof {
                        assert(decls_view(decls) =~= done.push(decl@));
                        match parse_decls(ts, parser.position()) {
                            Ok(rest) => {
                                assert(done + (seq![decl@] + rest) =~= done.push(decl@) + rest);
                            },
                            Err(_) => {},
                        }
                    }
                },
                Err(e) => {
                    return Err(e);
                },
            }
        }
        Ok(decls)
    }

    fn parse_decl(&mut self) -> (r: Result<Decl, ParseError>)
        ensures
            final(self).tokens() == old(self).tokens(),
            agrees(
                parse_decl(old(self).tokens(), old(self).position()),
                decl_out(r),
                old(self).position(),
                final(self).position(),
            ),
    {
        if self.current().is_none() {
            return Err(ParseError::EndOfFile);
        }
        match self.parse_fn_decl() {
            Ok(decl) => Ok(Decl::FnDecl(decl)),
            Err(e) => Err(e),
        }
    }

    fn parse_fn_decl(&mut self) -> (r: Result<FnDecl, ParseError>)
        ensures
            final(self).tokens() == old(self).tokens(),
            agrees(
                parse_fn_decl(old(self).tokens(), old(self).position()),
                fn_decl_out(r),
                old(self).position(),
                final(self).position(),
            ),
    {
        if let Err(e) = self.consume(TokenKind::FnKeyword) {
            return Err(e);
        }
        let name = match self.consume_text(TokenKind::Identifier) {
            Ok(name) => name,
            Err(e) => {
                return Err(e);
            },
        };
        if let Err(e) = self.consume(TokenKind::LeftParen) {
            return Err(e);
        }
        let params = match self.parse_params() {
            Ok(params) => params,
            Err(e) => {
                return Err(e);
            },
        };
        if let Err(e) = self.consume(TokenKind::RightParen) {
            return Err(e);
        }
        if let Err(e) = self.consume(TokenKind::LeftBrace) {
            return Err(e);
        }
        let body = match self.parse_body() {
            Ok(body) => body,
            Err(e) => {
                return Err(e);
            },
        };
        if let Err(e) = self.consume(TokenKind::RightBrace) {
            return Err(e);
        }
        Ok(FnDecl { name, params, body })
    }

    fn parse_params(&mut self) -> (r: Result<Vec<String>, ParseError>)
        ensures
            final(self).tokens() == old(self).tokens(),
            agrees(
                parse_params(old(self).tokens(), old(self).position()),
                names_out(r),
                old(self).position(),
                final(self).position(),
            ),
    {
        let ghost ts = self.tokens();
        let ghost start = self.position();
        let mut params: Vec<String> = Vec::new();
        assert(strings_view(params@) =~= Seq::<Seq<char>>::empty());
        if let Some(TokenKind::RightParen) = self.current_kind() {
            return Ok(params);
        }
        assert(Seq::<Seq<char>>::empty() + parse_param_names(ts, start)->Ok_0.0
            =~= parse_param_names(ts, start)->Ok_0.0);
        loop
            invariant
                self.tokens() == ts,
                ts == old(self).tokens(),
                start == old(self).position(),
                start <= self.position(),
                parse_params(ts, start) == extend(
                    strings_view(params@),
                    (self.position() - start) as nat,
                    parse_param_names(ts, self.position()),
                ),
            decreases remaining(ts, self.position()),
        {
            let ghost pos = self.position();
            let ghost done = strings_view(params@);
            if self.current().is_none() {
                assert(done + Seq::<Seq<char>>::empty() =~= done);
                return Ok(params);
            }
            let name = match self.consume_text(TokenKind::Identifier) {
                Ok(name) => name,
                Err(e) => {
                    return Err(e);
                },
            };
            params.push(name);
            assert(strings_view(params@) =~= done.push(name@));
            if let Some(TokenKind::RightParen) = self.current_kind() {
                assert(done + seq![name@] =~= done.push(name@));
                return Ok(params);
            }
            if let Err(e) = self.consume(TokenKind::Comma) {
                return Err(e);
            }
            proof {
                match parse_param_names(ts, self.position()) {
                    Ok((rest, taken)) => {
                        assert(done + (seq![name@] + rest) =~= done.push(name@) + rest);
                    },
                    Err(_) => {},
                }
            }
        }
    }

    fn parse_body(&mut self) -> (r: Result<Vec<Stmt>, ParseError>)
        ensures
            final(self).tokens() == old(self).tokens(),
            agrees(
                parse_body(old(self).tokens(), old(self).position()),
                stmts_out(r),
                old(self).position(),
                final(self).position(),
            ),
        decreases remaining(old(self).tokens(), old(self).position()), 14nat,
    {
        let ghost ts = self.tokens();
        let ghost start = self.position();
        let mut stmts: Vec<Stmt> = Vec::new();
        assert(stmts_view(stmts) =~= Seq::<StmtView>::empty());
        assert(Seq::<StmtView>::empty() + parse_body(ts, start)->Ok_0.0 =~= parse_body(
            ts,
            start,
        )->Ok_0.0);
        loop
            invariant
                self.tokens() == ts,
                ts == old(self).tokens(),
                start == old(self).position(),
                start <= self.position(),
                parse_body(ts, start) == extend(
                    stmts_view(stmts),
                    (self.position() - start) as nat,
                    parse_body(ts, self.position()),
                ),
            decreases remaining(ts, self.position()),
        {
            let ghost pos = self.position();
            let ghost done = stmts_view(stmts);
            match self.current_kind() {
                None => {
                    assert(done + Seq::<StmtView>::empty() =~= done);
                    return Ok(stmts);
                },
                Some(TokenKind::RightBrace) => {
                    assert(done + Seq::<StmtView>::empty() =~= done);
                    return Ok(stmts);
                },
                Some(_) => {},
            }
            match self.parse_stmt() {
                Ok(stmt) => {
                    stmts.push(stmt);
                    proof {
                        crate::grammar::lemma_stmt_takes_tokens(ts, pos);
                        assert(stmts_view(stmts) =~= done.push(stmt@));
                        match parse_body(ts, self.position()) {
                            Ok((rest, taken)) => {
                                assert(done + (seq![stmt@] + rest) =~= done.push(stmt@) + rest);
                            },
                            Err(_) => {},
                        }
                    }
                },
                Err(e) => {
                    return Err(e);
                },
            }
        }
    }

    fn parse_expr_list(&mut self) -> (r: Result<Vec<Expr>, ParseError>)
        ensures
            final(self).tokens() == old(self).tokens(),
            agrees(
                parse_expr_list(old(self).tokens(), old(self).position()),
                exprs_out(r),
                old(self).position(),
                final(self).position(),
            ),
        decreases remaining(old(self).tokens(), old(self).position()), 8nat,
    {
        let ghost ts = self.tokens();
        let ghost start = self.position();
        let mut exprs: Vec<Expr> = Vec::new();
        assert(exprs_view(exprs) =~= Seq::<ExprView>::empty());
        if let Some(TokenKind::RightParen) = self.current_kind() {
            return Ok(exprs);
        }
        assert(Seq::<ExprView>::empty() + parse_exprs(ts, start)->Ok_0.0 =~= parse_exprs(
            ts,
            start,
        )->Ok_0.0);
        loop
            invariant
                self.tokens() == ts,
                ts == old(self).tokens(),
                start == old(self).position(),
                start <= self.position(),
                remaining(ts, self.position()) <= remaining(ts, start),
                parse_expr_list(ts, start) == extend(
                    exprs_view(exprs),
                    (self.position() - start) as nat,
                    parse_exprs(ts, self.position()),
                ),
            decreases remaining(ts, self.position()),
        {
            let ghost pos = self.position();
            let ghost done = exprs_view(exprs);
            if self.current().is_none() {
                assert(done + Seq::<ExprView>::empty() =~= done);
                return Ok(exprs);
            }
            let expr = match self.parse_expr() {
                Ok(expr) => expr,
                Err(e) => {
                    return Err(e);
                },
            };
            exprs.push(expr);
            assert(exprs_view(exprs) =~= done.push(expr@));
            if let Some(TokenKind::RightParen) = self.current_kind() {
                assert(done + seq![expr@] =~= done.push(expr@));
                return Ok(exprs);
            }
            if let Err(e) = self.consume(TokenKind::Comma) {
                return Err(e);
            }
            proof {
                match parse_exprs(ts, self.position()) {
                    Ok((rest, taken)) => {
                        assert(done + (seq![expr@] + rest) =~= done.push(expr@) + rest);
                    },
                    Err(_) => {},
                }
            }
        }
    }

    fn parse_expr(&mut self) -> (r: Result<Expr, ParseError>)
        ensures
            final(self).tokens() == old(self).tokens(),
            agrees(
                parse_expr(old(self).tokens(), old(self).position()),
                expr_out(r),
                old(self).position(),
                final(self).position(),
            ),
        decreases remaining(old(self).tokens(), old(self).position()), 6nat,
    {
        self.parse_binary_expr(0)
    }

    fn parse_binary_expr(&mut self, parent_prec: usize) -> (r: Result<Expr, ParseError>)
        ensures
            final(self).tokens() == old(self).tokens(),
            agrees(
                parse_binary_expr(old(self).tokens(), old(self).position(), parent_prec as nat),
                expr_out(r),
                old(self).position(),
                final(self).position(),
            ),
        decreases remaining(old(self).tokens(), old(self).position()), 5nat,
    {
        let ghost ts = self.tokens();
        let ghost start = self.position();
        if self.current().is_none() {
            return Err(ParseError::EndOfFile);
        }
        let mut left = match self.parse_primary_expr() {
            Ok(e) => e,
            Err(e) => {
                return Err(e);
            },
        };
        let ghost first = self.position();
        loop
            invariant
                self.tokens() == ts,
                ts == old(self).tokens(),
                start == old(self).position(),
                0 <= start < ts.len(),
                start <= first <= self.position(),
                remaining(ts, self.position()) <= remaining(ts, start),
                parse_binary_expr(ts, start, parent_prec as nat) == match parse_operators(
                    ts,
                    self.position(),
                    left@,
                    parent_prec as nat,
                ) {
                    Ok((e, more)) => Ok((e, (self.position() - start + more) as nat)),
                    Err(e) => Err(e),
                },
            decreases remaining(ts, self.position()),
        {
            let ghost pos = self.position();
            let kind = match self.current_kind() {
                Some(kind) => kind,
                None => {
                    return Ok(left);
                },
            };
            let op = match Operator::try_from(kind) {
                Ok(op) => op,
                Err(_) => {
                    return Ok(left);
                },
            };
            let prec = op.get_prec();
            if prec == 0 || prec <= parent_prec {
                return Ok(left);
            }
            if let Err(e) = self.consume(kind) {
                return Err(e);
            }
            let right = match self.parse_binary_expr(prec) {
                Ok(e) => e,
                Err(e) => {
                    return Err(e);
                },
            };
            left = Expr::Binary(Binary { op, left: Box::new(left), right: Box::new(right) });
            proof {
                lemma_expr_view(left);
            }
        }
    }

    fn parse_primary_expr(&mut self) -> (r: Result<Expr, ParseError>)
        ensures
            final(self).tokens() == old(self).tokens(),
            agrees(
                parse_primary_expr(old(self).tokens(), old(self).position()),
                expr_out(r),
                old(self).position(),
                final(self).position(),
            ),
        decreases remaining(old(self).tokens(), old(self).position()), 3nat,
    {
        let kind = match self.current_kind() {
            Some(kind) => kind,
            None => {
                return Err(ParseError::EndOfFile);
            },
        };
        match kind {
            TokenKind::Number => {
                let text = match self.consume_text(TokenKind::Number) {
                    Ok(text) => text,
                    Err(e) => {
                        return Err(e);
                    },
                };
                let digits = to_chars(text.as_str());
                assert(digits@.skip(0) =~= digits@);
                match parse_decimal(&digits, 0, 0x7fff_ffff) {
                    Some(n) => Ok(Expr::NumberLiteral(n as i32)),
                    None => Err(ParseError::ExpectedToken(TokenKind::Number, TokenKind::Number)),
                }
            },
            TokenKind::String => {
                let text = match self.consume_text(TokenKind::String) {
                    Ok(text) => text,
                    Err(e) => {
                        return Err(e);
                    },
                };
                let chars = to_chars(text.as_str());
                if chars.len() >= 2 {
                    let inner = vstd::slice::slice_subrange(
                        chars.as_slice(),
                        1,
                        chars.len() - 1,
                    );
                    Ok(Expr::StringLiteral(string_from_chars(inner)))
                } else {
                    Ok(Expr::StringLiteral(String::new()))
                }
            },
            TokenKind::TrueKeyword => {
                self.advance();
                Ok(Expr::BooleanLiteral(true))
            },
            TokenKind::FalseKeyword => {
                self.advance();
                Ok(Expr::BooleanLiteral(false))
            },
            TokenKind::NullKeyword => {
                self.advance();
                Ok(Expr::NullLiteral)
            },
            TokenKind::Identifier => {
                if let Some(TokenKind::LeftParen) = self.peek_kind(1) {
                    match self.parse_fn_call() {
                        Ok(call) => {
                            let expr = Expr::FnCall(call);
                            proof {
                                lemma_expr_view(expr);
                            }
                            Ok(expr)
                        },
                        Err(e) => Err(e),
                    }
                } else {
                    match self.consume_text(TokenKind::Identifier) {
                        Ok(name) => Ok(Expr::Identifier(name)),
                        Err(e) => Err(e),
                    }
                }
            },
            TokenKind::LeftBrace => {
                if let Err(e) = self.consume(TokenKind::LeftBrace) {
                    return Err(e);
                }
                let fields = match self.parse_object_fields() {
                    Ok(fields) => fields,
                    Err(e) => {
                        return Err(e);
                    },
                };
                if let Err(e) = self.consume(TokenKind::RightBrace) {
                    return Err(e);
                }
                let expr = Expr::ObjectLiteral(fields);
                proof {
                    lemma_expr_view(expr);
                }
                Ok(expr)
            },
            _ => {
                match self.parse_fn_call() {
                    Ok(call) => {
                        let expr = Expr::FnCall(call);
                        proof {
                            lemma_expr_view(expr);
                        }
                        Ok(expr)
                    },
                    Err(e) => Err(e),
                }
            },
        }
    }

    fn parse_field(&mut self) -> (r: Result<(String, Expr), ParseError>)
        ensures
            final(self).tokens() == old(self).tokens(),
            agrees(
                parse_field(old(self).tokens(), old(self).position()),
                pair_out(r),
                old(self).position(),
                final(self).position(),
            ),
        decreases remaining(old(self).tokens(), old(self).position()), 7nat,
    {
        let name = match self.consume_text(TokenKind::Identifier) {
            Ok(name) => name,
            Err(e) => {
                return Err(e);
            },
        };
        if let Err(e) = self.consume(TokenKind::Colon) {
            return Err(e);
        }
        match self.parse_expr() {
            Ok(value) => Ok((name, value)),
            Err(e) => Err(e),
        }
    }

    fn parse_object_fields(&mut self) -> (r: Result<Vec<(String, Expr)>, ParseError>)
        ensures
            final(self).tokens() == old(self).tokens(),
            agrees(
                parse_object_fields(old(self).tokens(), old(self).position()),
                fields_out(r),
                old(self).position(),
                final(self).position(),
            ),
        decreases remaining(old(self).tokens(), old(self).position()), 9nat,
    {
        let ghost ts = self.tokens();
        let ghost start = self.position();
        let mut fields: Vec<(String, Expr)> = Vec::new();
        assert(fields_view(fields) =~= Seq::<(Seq<char>, ExprView)>::empty());
        match self.current_kind() {
            None => {
                return Err(ParseError::EndOfFile);
            },
            Some(TokenKind::RightBrace) => {
                return Ok(fields);
            },
            Some(_) => {},
        }
        let first = match self.parse_field() {
            Ok(field) => field,
            Err(e) => {
                return Err(e);
            },
        };
        let ghost first_view = (first.0@, first.1@);
        fields.push(first);
        assert(fields_view(fields) =~= seq![first_view]);
        loop
            invariant
                self.tokens() == ts,
                ts == old(self).tokens(),
                start == old(self).position(),
                0 <= start < ts.len(),
                start <= self.position(),
                remaining(ts, self.position()) <= remaining(ts, start),
                parse_object_fields(ts, start) == extend(
                    fields_view(fields),
                    (self.position() - start) as nat,
                    parse_more_fields(ts, self.position()),
                ),
            decreases remaining(ts, self.position()),
        {
            let ghost done = fields_view(fields);
            match self.current_kind() {
                None => {
                    return Err(ParseError::EndOfFile);
                },
                Some(TokenKind::RightBrace) => {
                    assert(done + Seq::<(Seq<char>, ExprView)>::empty() =~= done);
                    return Ok(fields);
                },
                Some(_) => {},
            }
            if let Err(e) = self.consume(TokenKind::Comma) {
                return Err(e);
            }
            let field = match self.parse_field() {
                Ok(field) => field,
                Err(e) => {
                    return Err(e);
                },
            };
            let ghost field_view = (field.0@, field.1@);
            fields.push(field);
            proof {
                assert(fields_view(fields) =~= done.push(field_view));
                match parse_more_fields(ts, self.position()) {
                    Ok((rest, taken)) => {
                        assert(done + (seq![field_view] + rest) =~= done.push(field_view) + rest);
                    },
                    Err(_) => {},
                }
            }
        }
    }

    fn parse_stmt(&mut self) -> (r: Result<Stmt, ParseError>)
        ensures
            final(self).tokens() == old(self).tokens(),
            agrees(
                parse_stmt(old(self).tokens(), old(self).position()),
                stmt_out(r),
                old(self).position(),
                final(self).position(),
            ),
        decreases remaining(old(self).tokens(), old(self).position()), 13nat,
    {
        let kind = match self.current_kind() {
            Some(kind) => kind,
            None => {
                return Err(ParseError::EndOfFile);
            },
        };
        match kind {
            TokenKind::ReturnKeyword => match self.parse_return_stmt() {
                Ok(stmt) => {
                    let stmt = Stmt::Return(stmt);
                    proof {
                        lemma_stmt_view(stmt);
                    }
                    Ok(stmt)
                },
                Err(e) => Err(e),
            },
            TokenKind::IfKeyword => match self.parse_if_stmt() {
                Ok(stmt) => {
                    let stmt = Stmt::If(stmt);
                    proof {
                        lemma_stmt_view(stmt);
                    }
                    Ok(stmt)
                },
                Err(e) => Err(e),
            },
            TokenKind::WhileKeyword => match self.parse_while_stmt() {
                Ok(stmt) => {
                    let stmt = Stmt::While(stmt);
                    proof {
                        lemma_stmt_view(stmt);
                    }
                    Ok(stmt)
                },
                Err(e) => Err(e),
            },
            TokenKind::LetKeyword => self.parse_let_stmt(),
            _ => self.parse_simple_stmt(),
        }
    }

    fn parse_return_stmt(&mut self) -> (r: Result<ReturnStmt, ParseError>)
        ensures
            final(self).tokens() == old(self).tokens(),
            agrees(
                parse_return_stmt(old(self).tokens(), old(self).position()),
                match r {
                    Ok(s) => Ok(s.expr@),
                    Err(e) => Err(e),
                },
                old(self).position(),
                final(self).position(),
            ),
        decreases remaining(old(self).tokens(), old(self).position()), 12nat,
    {
        if let Err(e) = self.consume(TokenKind::ReturnKeyword) {
            return Err(e);
        }
        match self.parse_return_value() {
            Ok(expr) => Ok(ReturnStmt { expr }),
            Err(e) => Err(e),
        }
    }

    fn parse_if_stmt(&mut self) -> (r: Result<IfStmt, ParseError>)
        ensures
            final(self).tokens() == old(self).tokens(),
            agrees(
                parse_if_stmt(old(self).tokens(), old(self).position()),
                match r {
                    Ok(s) => Ok((s.cond@, stmts_view(s.body))),
                    Err(e) => Err(e),
                },
                old(self).position(),
                final(self).position(),
            ),
        decreases remaining(old(self).tokens(), old(self).position()), 12nat,
    {
        if let Err(e) = self.consume(TokenKind::IfKeyword) {
            return Err(e);
        }
        match self.parse_guarded_body() {
            Ok((cond, body)) => Ok(IfStmt { cond, body }),
            Err(e) => Err(e),
        }
    }

    fn parse_while_stmt(&mut self) -> (r: Result<WhileStmt, ParseError>)
        ensures
            final(self).tokens() == old(self).tokens(),
            agrees(
                parse_while_stmt(old(self).tokens(), old(self).position()),
                match r {
                    Ok(s) => Ok((s.cond@, stmts_view(s.body))),
                    Err(e) => Err(e),
                },
                old(self).position(),
                final(self).position(),
            ),
        decreases remaining(old(self).tokens(), old(self).position()), 12nat,
    {
        if let Err(e) = self.consume(TokenKind::WhileKeyword) {
            return Err(e);
        }
        match self.parse_guarded_body() {
            Ok((cond, body)) => Ok(WhileStmt { cond, body }),
            Err(e) => Err(e),
        }
    }

    fn parse_let_stmt(&mut self) -> (r: Result<Stmt, ParseError>)
        ensures
            final(self).tokens() == old(self).tokens(),
            agrees(
                parse_let_stmt(old(self).tokens(), old(self).position()),
                stmt_out(r),
                old(self).position(),
                final(self).position(),
            ),
        decreases remaining(old(self).tokens(), old(self).position()), 12nat,
    {
        if let Err(e) = self.consume(TokenKind::LetKeyword) {
            return Err(e);
        }
        let parts = match self.parse_assign() {
            Ok(parts) => parts,
            Err(e) => {
                return Err(e);
            },
        };
        if let Err(e) = self.consume(TokenKind::Semicolon) {
            return Err(e);
        }
        let stmt = Stmt::Decl(DeclStmt { var: parts.var, val: parts.val });
        proof {
            lemma_stmt_view(stmt);
        }
        Ok(stmt)
    }

    fn parse_simple_stmt(&mut self) -> (r: Result<Stmt, ParseError>)
        ensures
            final(self).tokens() == old(self).tokens(),
            agrees(
                parse_simple_stmt(old(self).tokens(), old(self).position()),
                stmt_out(r),
                old(self).position(),
                final(self).position(),
            ),
        decreases remaining(old(self).tokens(), old(self).position()), 11nat,
    {
        let next = match self.peek_kind(1) {
            Some(kind) => kind,
            None => {
                return Err(ParseError::EndOfFile);
            },
        };
        if next == TokenKind::LeftParen {
            let call = match self.parse_fn_call() {
                Ok(call) => call,
                Err(e) => {
                    return Err(e);
                },
            };
            if let Err(e) = self.consume(TokenKind::Semicolon) {
                return Err(e);
            }
            let stmt = Stmt::FnCall(call);
            proof {
                lemma_stmt_view(stmt);
            }
            Ok(stmt)
        } else {
            let assign = match self.parse_assign() {
                Ok(assign) => assign,
                Err(e) => {
                    return Err(e);
                },
            };
            if let Err(e) = self.consume(TokenKind::Semicolon) {
                return Err(e);
            }
            let stmt = Stmt::Assign(assign);
            proof {
                lemma_stmt_view(stmt);
            }
            Ok(stmt)
        }
    }

    fn parse_assign(&mut self) -> (r: Result<AssignStmt, ParseError>)
        ensures
            final(self).tokens() == old(self).tokens(),
            agrees(
                parse_assign(old(self).tokens(), old(self).position()),
                match r {
                    Ok(a) => Ok((a.var@, a.val@)),
                    Err(e) => Err(e),
                },
                old(self).position(),
                final(self).position(),
            ),
        decreases remaining(old(self).tokens(), old(self).position()), 10nat,
    {
        let var = match self.consume_text(TokenKind::Identifier) {
            Ok(name) => name,
            Err(e) => {
                return Err(e);
            },
        };
        if let Err(e) = self.consume(TokenKind::Equals) {
            return Err(e);
        }
        match self.parse_expr() {
            Ok(val) => Ok(AssignStmt { var, val }),
            Err(e) => Err(e),
        }
    }

    fn parse_expr_then(&mut self, end: TokenKind) -> (r: Result<Expr, ParseError>)
        ensures
            final(self).tokens() == old(self).tokens(),
            agrees(
                parse_expr_then(old(self).tokens(), old(self).position(), end),
                expr_out(r),
                old(self).position(),
                final(self).position(),
            ),
        decreases remaining(old(self).tokens(), old(self).position()), 10nat,
    {
        let expr = match self.parse_expr() {
            Ok(expr) => expr,
            Err(e) => {
                return Err(e);
            },
        };
        match self.consume(end) {
            Ok(_) => Ok(expr),
            Err(e) => Err(e),
        }
    }

    fn parse_guarded_body(&mut self) -> (r: Result<(Expr, Vec<Stmt>), ParseError>)
        ensures
            final(self).tokens() == old(self).tokens(),
            agrees(
                parse_guarded_body(old(self).tokens(), old(self).position()),
                guarded_out(r),
                old(self).position(),
                final(self).position(),
            ),
        decreases remaining(old(self).tokens(), old(self).position()), 11nat,
    {
        let cond = match self.parse_expr_then(TokenKind::LeftBrace) {
            Ok(cond) => cond,
            Err(e) => {
                return Err(e);
            },
        };
        let body = match self.parse_body() {
            Ok(body) => body,
            Err(e) => {
                return Err(e);
            },
        };
        match self.consume(TokenKind::RightBrace) {
            Ok(_) => Ok((cond, body)),
            Err(e) => Err(e),
        }
    }

    fn parse_return_value(&mut self) -> (r: Result<Expr, ParseError>)
        ensures
            final(self).tokens() == old(self).tokens(),
            agrees(
                parse_return_value(old(self).tokens(), old(self).position()),
                expr_out(r),
                old(self).position(),
                final(self).position(),
            ),
        decreases remaining(old(self).tokens(), old(self).position()), 11nat,
    {
        match self.current_kind() {
            None => Err(ParseError::EndOfFile),
            Some(TokenKind::Semicolon) => {
                self.advance();
                Ok(Expr::NullLiteral)
            },
            Some(_) => self.parse_expr_then(TokenKind::Semicolon),
        }
    }

    fn parse_fn_call(&mut self) -> (r: Result<FnCall, ParseError>)
        ensures
            final(self).tokens() == old(self).tokens(),
            agrees(
                parse_fn_call(old(self).tokens(), old(self).position()),
                call_out(r),
                old(self).position(),
                final(self).position(),
            ),
        decreases remaining(old(self).tokens(), old(self).position()), 2nat,
    {
        let name = match self.consume_text(TokenKind::Identifier) {
            Ok(name) => name,
            Err(e) => {
                return Err(e);
            },
        };
        if let Err(e) = self.consume(TokenKind::LeftParen) {
            return Err(e);
        }
        let args = match self.parse_expr_list() {
            Ok(args) => args,
            Err(e) => {
                return Err(e);
            },
        };
        if let Err(e) = self.consume(TokenKind::RightParen) {
            return Err(e);
        }
        Ok(FnCall { name, args })
    }
}

/// Reads a sequence of tokens as a program.
pub fn parse_tokens(tokens: Vec<Token>) -> (r: Result<Vec<Decl>, ParseError>)
    ensures
        decls_out(r) == parse_program(tokens_view(tokens@)),
{
    Parser::new(tokens).parse()
}

} // verus!
