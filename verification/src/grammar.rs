//! The grammar: which syntax tree a sequence of tokens has.
//!
//! Each function here reads the tokens from a position on and gives either the
//! tree it found together with the number of tokens that the tree took, or
//! the failure at which reading stopped. Reading never goes back and never
//! tries a second way: the first failure is the result.
//!
//! ```text
//! program  = { function } end-of-input
//! function = "fn" name "(" [ name { "," name } ] ")" "{" { stmt } "}"
//! stmt     = "return" [ expr ] ";" | "if" expr "{" { stmt } "}"
//!          | "while" expr "{" { stmt } "}" | "let" name "=" expr ";"
//!          | call ";" | name "=" expr ";"
//! expr     = primary { operator expr }        (by binding strength)
//! primary  = number | string | "true" | "false" | "null" | call | name
//!          | "{" [ name ":" expr { "," name ":" expr } ] "}"
//! call     = name "(" [ expr { "," expr } ] ")"
//! ```

use vstd::prelude::*;
use crate::lexer::{TokenKind, TokenView};
use crate::syntax::{DeclView, ExprView, FnDeclView, StmtView};
use crate::text::{all_digits, decimal_value};
use crate::value::{operator_of, precedence, Operator};

verus! {

/// Why a sequence of tokens has no syntax tree.
#[derive(Clone, Copy, PartialEq, Eq, Debug, Structural)]
pub enum ParseError {
    /// A token of the first kind was expected, one of the second was found.
    ExpectedToken(TokenKind, TokenKind),
    /// A token was expected where the tokens end.
    EndOfFile,
}

/// What reading gives: the tree and the number of tokens it took, or a failure.
pub type Parsed<T> = Result<(T, nat), ParseError>;

/// The number of tokens from `pos` on.
pub open spec fn remaining(ts: Seq<TokenView>, pos: int) -> nat {
    if 0 <= pos <= ts.len() {
        (ts.len() - pos) as nat
    } else {
        0
    }
}

/// The kind of the token at `pos`, if there is one.
pub open spec fn kind_at(ts: Seq<TokenView>, pos: int) -> Option<TokenKind> {
    if 0 <= pos < ts.len() {
        Some(ts[pos].kind)
    } else {
        None
    }
}

/// Takes the token at `pos`, which has to be of kind `kind`.
pub open spec fn expect(ts: Seq<TokenView>, pos: int, kind: TokenKind) -> Result<
    TokenView,
    ParseError,
> {
    if !(0 <= pos < ts.len()) {
        Err(ParseError::EndOfFile)
    } else if ts[pos].kind == kind {
        Ok(ts[pos])
    } else {
        Err(ParseError::ExpectedToken(kind, ts[pos].kind))
    }
}

/// The value of a number token: its text read as decimal digits, where that is
/// a number of at most 2147483647.
pub open spec fn literal_value(text: Seq<char>) -> Option<i32> {
    if text.len() > 0 && all_digits(text) && decimal_value(text) <= i32::MAX {
        Some(decimal_value(text) as i32)
    } else {
        None
    }
}

/// The text of a string token without its first and its last character, the
/// quotes.
pub open spec fn strip_quotes(text: Seq<char>) -> Seq<char> {
    if text.len() >= 2 {
        text.subrange(1, text.len() - 1)
    } else {
        Seq::empty()
    }
}

/// The parameter names of a function, up to the closing parenthesis.
pub open spec fn parse_params(ts: Seq<TokenView>, pos: int) -> Parsed<Seq<Seq<char>>> {
    if kind_at(ts, pos) == Some(TokenKind::RightParen) {
        Ok((Seq::empty(), 0))
    } else {
        parse_param_names(ts, pos)
    }
}

/// Parameter names separated by commas.
pub open spec fn parse_param_names(ts: Seq<TokenView>, pos: int) -> Parsed<Seq<Seq<char>>>
    decreases remaining(ts, pos),
{
    if !(0 <= pos < ts.len()) {
        Ok((Seq::empty(), 0))
    } else {
        match expect(ts, pos, TokenKind::Identifier) {
            Err(e) => Err(e),
            Ok(name) => if kind_at(ts, pos + 1) == Some(TokenKind::RightParen) {
                Ok((seq![name.text], 1))
            } else {
                match expect(ts, pos + 1, TokenKind::Comma) {
                    Err(e) => Err(e),
                    Ok(_) => match parse_param_names(ts, pos + 2) {
                        Err(e) => Err(e),
                        Ok((rest, taken)) => Ok((seq![name.text] + rest, 2 + taken)),
                    },
                }
            },
        }
    }
}

/// An expression.
pub open spec fn parse_expr(ts: Seq<TokenView>, pos: int) -> Parsed<ExprView>
    decreases remaining(ts, pos), 6nat,
{
    parse_binary_expr(ts, pos, 0)
}

/// An expression of operators that bind more strongly than `parent_prec`: a
/// primary expression, then operators and right operands as long as they do.
pub open spec fn parse_binary_expr(ts: Seq<TokenView>, pos: int, parent_prec: nat) -> Parsed<
    ExprView,
>
    decreases remaining(ts, pos), 5nat,
{
    if !(0 <= pos < ts.len()) {
        Err(ParseError::EndOfFile)
    } else {
        match parse_primary_expr(ts, pos) {
            Err(e) => Err(e),
            Ok((left, taken)) => match parse_operators(ts, pos + taken, left, parent_prec) {
                Err(e) => Err(e),
                Ok((e, more)) => Ok((e, taken + more)),
            },
        }
    }
}

/// The operator that the token at `pos` stands for, if it binds more strongly
/// than `parent_prec`.
pub open spec fn operator_at(ts: Seq<TokenView>, pos: int, parent_prec: nat) -> Option<Operator> {
    match kind_at(ts, pos) {
        Some(kind) => match operator_of(kind) {
            Some(op) => if precedence(op) > parent_prec {
                Some(op)
            } else {
                None
            },
            None => None,
        },
        None => None,
    }
}

/// The operators that follow the operand `left`, folded to the left: each
/// takes as its right operand an expression of operators that bind more
/// strongly than itself.
pub open spec fn parse_operators(
    ts: Seq<TokenView>,
    pos: int,
    left: ExprView,
    parent_prec: nat,
) -> Parsed<ExprView>
    decreases remaining(ts, pos), 4nat,
{
    match operator_at(ts, pos, parent_prec) {
        None => Ok((left, 0)),
        Some(op) => match parse_binary_expr(ts, pos + 1, precedence(op)) {
            Err(e) => Err(e),
            Ok((right, taken)) => match parse_operators(
                ts,
                pos + 1 + taken,
                ExprView::Binary(op, Box::new(left), Box::new(right)),
                parent_prec,
            ) {
                Err(e) => Err(e),
                Ok((e, more)) => Ok((e, 1 + taken + more)),
            },
        },
    }
}

/// A primary expression, told by its first token.
pub open spec fn parse_primary_expr(ts: Seq<TokenView>, pos: int) -> Parsed<ExprView>
    decreases remaining(ts, pos), 3nat,
{
    if !(0 <= pos < ts.len()) {
        Err(ParseError::EndOfFile)
    } else {
        match ts[pos].kind {
            TokenKind::Number => match literal_value(ts[pos].text) {
                Some(n) => Ok((ExprView::NumberLiteral(n), 1)),
                None => Err(ParseError::ExpectedToken(TokenKind::Number, TokenKind::Number)),
            },
            TokenKind::String => Ok((ExprView::StringLiteral(strip_quotes(ts[pos].text)), 1)),
            TokenKind::TrueKeyword => Ok((ExprView::BooleanLiteral(true), 1)),
            TokenKind::FalseKeyword => Ok((ExprView::BooleanLiteral(false), 1)),
            TokenKind::NullKeyword => Ok((ExprView::NullLiteral, 1)),
            TokenKind::Identifier => if kind_at(ts, pos + 1) == Some(TokenKind::LeftParen) {
                match parse_fn_call(ts, pos) {
                    Err(e) => Err(e),
                    Ok((call, taken)) => Ok((ExprView::FnCall(call.0, call.1), taken)),
                }
            } else {
                Ok((ExprView::Identifier(ts[pos].text), 1))
            },
            TokenKind::LeftBrace => match parse_object_fields(ts, pos + 1) {
                Err(e) => Err(e),
                Ok((fields, taken)) => match expect(ts, pos + 1 + taken, TokenKind::RightBrace) {
                    Err(e) => Err(e),
                    Ok(_) => Ok((ExprView::ObjectLiteral(fields), 2 + taken)),
                },
            },
            _ => match parse_fn_call(ts, pos) {
                Err(e) => Err(e),
                Ok((call, taken)) => Ok((ExprView::FnCall(call.0, call.1), taken)),
            },
        }
    }
}

/// A call: a name and the arguments in parentheses.
pub open spec fn parse_fn_call(ts: Seq<TokenView>, pos: int) -> Parsed<(Seq<char>, Seq<ExprView>)>
    decreases remaining(ts, pos), 2nat,
{
    match expect(ts, pos, TokenKind::Identifier) {
        Err(e) => Err(e),
        Ok(name) => match expect(ts, pos + 1, TokenKind::LeftParen) {
            Err(e) => Err(e),
            Ok(_) => match parse_expr_list(ts, pos + 2) {
                Err(e) => Err(e),
                Ok((args, taken)) => match expect(ts, pos + 2 + taken, TokenKind::RightParen) {
                    Err(e) => Err(e),
                    Ok(_) => Ok(((name.text, args), 3 + taken)),
                },
            },
        },
    }
}

/// The arguments of a call, up to the closing parenthesis.
pub open spec fn parse_expr_list(ts: Seq<TokenView>, pos: int) -> Parsed<Seq<ExprView>>
    decreases remaining(ts, pos), 8nat,
{
    if kind_at(ts, pos) == Some(TokenKind::RightParen) {
        Ok((Seq::empty(), 0))
    } else {
        parse_exprs(ts, pos)
    }
}

/// Expressions separated by commas.
pub open spec fn parse_exprs(ts: Seq<TokenView>, pos: int) -> Parsed<Seq<ExprView>>
    decreases remaining(ts, pos), 7nat,
{
    if !(0 <= pos < ts.len()) {
        Ok((Seq::empty(), 0))
    } else {
        match parse_expr(ts, pos) {
            Err(e) => Err(e),
            Ok((first, taken)) => if kind_at(ts, pos + taken) == Some(TokenKind::RightParen) {
                Ok((seq![first], taken))
            } else {
                match expect(ts, pos + taken, TokenKind::Comma) {
                    Err(e) => Err(e),
                    Ok(_) => match parse_exprs(ts, pos + taken + 1) {
                        Err(e) => Err(e),
                        Ok((rest, more)) => Ok((seq![first] + rest, taken + 1 + more)),
                    },
                }
            },
        }
    }
}

/// A field of an object literal: a name, a colon and an expression.
pub open spec fn parse_field(ts: Seq<TokenView>, pos: int) -> Parsed<(Seq<char>, ExprView)>
    decreases remaining(ts, pos), 7nat,
{
    match expect(ts, pos, TokenKind::Identifier) {
        Err(e) => Err(e),
        Ok(name) => match expect(ts, pos + 1, TokenKind::Colon) {
            Err(e) => Err(e),
            Ok(_) => match parse_expr(ts, pos + 2) {
                Err(e) => Err(e),
                Ok((value, taken)) => Ok(((name.text, value), 2 + taken)),
            },
        },
    }
}

/// The fields of an object literal, up to the closing brace.
pub open spec fn parse_object_fields(ts: Seq<TokenView>, pos: int) -> Parsed<
    Seq<(Seq<char>, ExprView)>,
>
    decreases remaining(ts, pos), 9nat,
{
    if !(0 <= pos < ts.len()) {
        Err(ParseError::EndOfFile)
    } else if ts[pos].kind == TokenKind::RightBrace {
        Ok((Seq::empty(), 0))
    } else {
        match parse_field(ts, pos) {
            Err(e) => Err(e),
            Ok((first, taken)) => match parse_more_fields(ts, pos + taken) {
                Err(e) => Err(e),
                Ok((rest, more)) => Ok((seq![first] + rest, taken + more)),
            },
        }
    }
}

/// The further fields of an object literal, each after a comma.
pub open spec fn parse_more_fields(ts: Seq<TokenView>, pos: int) -> Parsed<
    Seq<(Seq<char>, ExprView)>,
>
    decreases remaining(ts, pos), 8nat,
{
    if !(0 <= pos < ts.len()) {
        Err(ParseError::EndOfFile)
    } else if ts[pos].kind == TokenKind::RightBrace {
        Ok((Seq::empty(), 0))
    } else {
        match expect(ts, pos, TokenKind::Comma) {
            Err(e) => Err(e),
            Ok(_) => match parse_field(ts, pos + 1) {
                Err(e) => Err(e),
                Ok((field, taken)) => match parse_more_fields(ts, pos + 1 + taken) {
                    Err(e) => Err(e),
                    Ok((rest, more)) => Ok((seq![field] + rest, 1 + taken + more)),
                },
            },
        }
    }
}

/// An expression and the token of kind `end` after it.
pub open spec fn parse_expr_then(ts: Seq<TokenView>, pos: int, end: TokenKind) -> Parsed<ExprView>
    decreases remaining(ts, pos), 10nat,
{
    match parse_expr(ts, pos) {
        Err(e) => Err(e),
        Ok((value, taken)) => match expect(ts, pos + taken, end) {
            Err(e) => Err(e),
            Ok(_) => Ok((value, taken + 1)),
        },
    }
}

/// A name, an equals sign and an expression.
pub open spec fn parse_assign(ts: Seq<TokenView>, pos: int) -> Parsed<(Seq<char>, ExprView)>
    decreases remaining(ts, pos), 10nat,
{
    match expect(ts, pos, TokenKind::Identifier) {
        Err(e) => Err(e),
        Ok(name) => match expect(ts, pos + 1, TokenKind::Equals) {
            Err(e) => Err(e),
            Ok(_) => match parse_expr(ts, pos + 2) {
                Err(e) => Err(e),
                Ok((value, taken)) => Ok(((name.text, value), 2 + taken)),
            },
        },
    }
}

/// After `return`: a semicolon, which returns `null`, or an expression and a
/// semicolon.
pub open spec fn parse_return_value(ts: Seq<TokenView>, pos: int) -> Parsed<ExprView>
    decreases remaining(ts, pos), 11nat,
{
    if !(0 <= pos < ts.len()) {
        Err(ParseError::EndOfFile)
    } else if ts[pos].kind == TokenKind::Semicolon {
        Ok((ExprView::NullLiteral, 1))
    } else {
        parse_expr_then(ts, pos, TokenKind::Semicolon)
    }
}

/// After `if` or `while`: a condition and a body in braces.
pub open spec fn parse_guarded_body(ts: Seq<TokenView>, pos: int) -> Parsed<
    (ExprView, Seq<StmtView>),
>
    decreases remaining(ts, pos), 11nat,
{
    match parse_expr_then(ts, pos, TokenKind::LeftBrace) {
        Err(e) => Err(e),
        Ok((cond, taken)) => match parse_body(ts, pos + taken) {
            Err(e) => Err(e),
            Ok((body, more)) => match expect(ts, pos + taken + more, TokenKind::RightBrace) {
                Err(e) => Err(e),
                Ok(_) => Ok(((cond, body), taken + more + 1)),
            },
        },
    }
}

/// A name, an equals sign, an expression and a semicolon.
pub open spec fn parse_let(ts: Seq<TokenView>, pos: int) -> Parsed<StmtView>
    decreases remaining(ts, pos), 11nat,
{
    match parse_assign(ts, pos) {
        Err(e) => Err(e),
        Ok((parts, taken)) => match expect(ts, pos + taken, TokenKind::Semicolon) {
            Err(e) => Err(e),
            Ok(_) => Ok((StmtView::Decl(parts.0, parts.1), taken + 1)),
        },
    }
}

/// A statement that starts with none of `return`, `if`, `while` and `let`:
/// an opening parenthesis as its second token makes it a call, and anything
/// else an assignment. A semicolon ends it.
pub open spec fn parse_simple_stmt(ts: Seq<TokenView>, pos: int) -> Parsed<StmtView>
    decreases remaining(ts, pos), 11nat,
{
    match kind_at(ts, pos + 1) {
        None => Err(ParseError::EndOfFile),
        Some(TokenKind::LeftParen) => match parse_fn_call(ts, pos) {
            Err(e) => Err(e),
            Ok((call, taken)) => match expect(ts, pos + taken, TokenKind::Semicolon) {
                Err(e) => Err(e),
                Ok(_) => Ok((StmtView::FnCall(call.0, call.1), taken + 1)),
            },
        },
        Some(_) => match parse_assign(ts, pos) {
            Err(e) => Err(e),
            Ok((parts, taken)) => match expect(ts, pos + taken, TokenKind::Semicolon) {
                Err(e) => Err(e),
                Ok(_) => Ok((StmtView::Assign(parts.0, parts.1), taken + 1)),
            },
        },
    }
}

/// `return`, then what is returned.
pub open spec fn parse_return_stmt(ts: Seq<TokenView>, pos: int) -> Parsed<ExprView>
    decreases remaining(ts, pos), 12nat,
{
    match expect(ts, pos, TokenKind::ReturnKeyword) {
        Err(e) => Err(e),
        Ok(_) => match parse_return_value(ts, pos + 1) {
            Err(e) => Err(e),
            Ok((value, taken)) => Ok((value, 1 + taken)),
        },
    }
}

/// `if`, then a condition and a body.
pub open spec fn parse_if_stmt(ts: Seq<TokenView>, pos: int) -> Parsed<(ExprView, Seq<StmtView>)>
    decreases remaining(ts, pos), 12nat,
{
    match expect(ts, pos, TokenKind::IfKeyword) {
        Err(e) => Err(e),
        Ok(_) => match parse_guarded_body(ts, pos + 1) {
            Err(e) => Err(e),
            Ok((parts, taken)) => Ok((parts, 1 + taken)),
        },
    }
}

/// `while`, then a condition and a body.
pub open spec fn parse_while_stmt(ts: Seq<TokenView>, pos: int) -> Parsed<
    (ExprView, Seq<StmtView>),
>
    decreases remaining(ts, pos), 12nat,
{
    match expect(ts, pos, TokenKind::WhileKeyword) {
        Err(e) => Err(e),
        Ok(_) => match parse_guarded_body(ts, pos + 1) {
            Err(e) => Err(e),
            Ok((parts, taken)) => Ok((parts, 1 + taken)),
        },
    }
}

/// `let`, then a name, an equals sign, an expression and a semicolon.
pub open spec fn parse_let_stmt(ts: Seq<TokenView>, pos: int) -> Parsed<StmtView>
    decreases remaining(ts, pos), 12nat,
{
    match expect(ts, pos, TokenKind::LetKeyword) {
        Err(e) => Err(e),
        Ok(_) => match parse_let(ts, pos + 1) {
            Err(e) => Err(e),
            Ok((stmt, taken)) => Ok((stmt, 1 + taken)),
        },
    }
}

/// A statement, told by its first token.
pub open spec fn parse_stmt(ts: Seq<TokenView>, pos: int) -> Parsed<StmtView>
    decreases remaining(ts, pos), 13nat,
{
    if !(0 <= pos < ts.len()) {
        Err(ParseError::EndOfFile)
    } else if ts[pos].kind == TokenKind::ReturnKeyword {
        match parse_return_stmt(ts, pos) {
            Err(e) => Err(e),
            Ok((value, taken)) => Ok((StmtView::Return(value), taken)),
        }
    } else if ts[pos].kind == TokenKind::IfKeyword {
        match parse_if_stmt(ts, pos) {
            Err(e) => Err(e),
            Ok((parts, taken)) => Ok((StmtView::If(parts.0, parts.1), taken)),
        }
    } else if ts[pos].kind == TokenKind::WhileKeyword {
        match parse_while_stmt(ts, pos) {
            Err(e) => Err(e),
            Ok((parts, taken)) => Ok((StmtView::While(parts.0, parts.1), taken)),
        }
    } else if ts[pos].kind == TokenKind::LetKeyword {
        parse_let_stmt(ts, pos)
    } else {
        parse_simple_stmt(ts, pos)
    }
}

/// The statements of a body, up to the closing brace.
pub open spec fn parse_body(ts: Seq<TokenView>, pos: int) -> Parsed<Seq<StmtView>>
    decreases remaining(ts, pos), 14nat,
{
    if !(0 <= pos < ts.len()) || ts[pos].kind == TokenKind::RightBrace {
        Ok((Seq::empty(), 0))
    } else {
        match parse_stmt(ts, pos) {
            Err(e) => Err(e),
            Ok((first, taken)) => if taken == 0 {
                // A statement takes at least one token: see `lemma_stmt_takes_tokens`.
                Err(ParseError::EndOfFile)
            } else {
                match parse_body(ts, pos + taken) {
                    Err(e) => Err(e),
                    Ok((rest, more)) => Ok((seq![first] + rest, taken + more)),
                }
            },
        }
    }
}

/// A function declaration.
pub open spec fn parse_fn_decl(ts: Seq<TokenView>, pos: int) -> Parsed<FnDeclView> {
    match expect(ts, pos, TokenKind::FnKeyword) {
        Err(e) => Err(e),
        Ok(_) => match expect(ts, pos + 1, TokenKind::Identifier) {
            Err(e) => Err(e),
            Ok(name) => match expect(ts, pos + 2, TokenKind::LeftParen) {
                Err(e) => Err(e),
                Ok(_) => match parse_params(ts, pos + 3) {
                    Err(e) => Err(e),
                    Ok((params, taken)) => match expect(
                        ts,
                        pos + 3 + taken,
                        TokenKind::RightParen,
                    ) {
                        Err(e) => Err(e),
                        Ok(_) => match expect(ts, pos + 4 + taken, TokenKind::LeftBrace) {
                            Err(e) => Err(e),
                            Ok(_) => match parse_body(ts, pos + 5 + taken) {
                                Err(e) => Err(e),
                                Ok((body, more)) => match expect(
                                    ts,
                                    pos + 5 + taken + more,
                                    TokenKind::RightBrace,
                                ) {
                                    Err(e) => Err(e),
                                    Ok(_) => Ok(
                                        (
                                            FnDeclView { name: name.text, params, body },
                                            6 + taken + more,
                                        ),
                                    ),
                                },
                            },
                        },
                    },
                },
            },
        },
    }
}

/// A declaration: a function declaration is the only kind.
pub open spec fn parse_decl(ts: Seq<TokenView>, pos: int) -> Parsed<DeclView> {
    if !(0 <= pos < ts.len()) {
        Err(ParseError::EndOfFile)
    } else {
        match parse_fn_decl(ts, pos) {
            Err(e) => Err(e),
            Ok((decl, taken)) => Ok((DeclView::FnDecl(decl), taken)),
        }
    }
}

/// The declarations from `pos` up to the end-of-input token.
pub open spec fn parse_decls(ts: Seq<TokenView>, pos: int) -> Result<Seq<DeclView>, ParseError>
    decreases remaining(ts, pos),
{
    if !(0 <= pos < ts.len()) || ts[pos].kind == TokenKind::EndOfFile {
        Ok(Seq::empty())
    } else {
        match parse_decl(ts, pos) {
            Err(e) => Err(e),
            Ok((first, taken)) => if taken == 0 {
                // A declaration takes at least six tokens.
                Err(ParseError::EndOfFile)
            } else {
                match parse_decls(ts, pos + taken) {
                    Err(e) => Err(e),
                    Ok(rest) => Ok(seq![first] + rest),
                }
            },
        }
    }
}

/// The syntax tree of a sequence of tokens.
pub open spec fn parse_program(ts: Seq<TokenView>) -> Result<Seq<DeclView>, ParseError> {
    parse_decls(ts, 0)
}

/// A statement takes at least one token, and a declaration too, so the guards
/// in `parse_body` and `parse_decls` never turn a tree into a failure.
pub proof fn lemma_stmt_takes_tokens(ts: Seq<TokenView>, pos: int)
    ensures
        parse_stmt(ts, pos) matches Ok((_, taken)) ==> taken >= 1,
        parse_decl(ts, pos) matches Ok((_, taken)) ==> taken >= 1,
{
}

} // verus!
