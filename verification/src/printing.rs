//! A listing of the syntax tree for reading: one line per node and per part
//! of a node, each level two spaces deeper than the one above.

use vstd::prelude::*;
use crate::syntax::{
    strings_view, stmts_view, exprs_view, Decl, DeclView, Expr, ExprView, Stmt, StmtView,
};
use crate::text::{decimal_text, format_i32};
use crate::value::Operator;

verus! {

/// The lines of a listing.
pub type Lines = Seq<Seq<char>>;

/// The indentation of level `indent`: two spaces for each level.
pub open spec fn padding(indent: nat) -> Seq<char>
    decreases indent,
{
    if indent == 0 {
        Seq::empty()
    } else {
        padding((indent - 1) as nat) + "  "@
    }
}

/// The name of an operator.
pub open spec fn operator_name(op: Operator) -> Seq<char> {
    match op {
        Operator::Plus => "Plus"@,
        Operator::Minus => "Minus"@,
        Operator::Star => "Star"@,
        Operator::Slash => "Slash"@,
        Operator::Equals => "Equals"@,
        Operator::LessThan => "LessThan"@,
        Operator::GreaterThan => "GreaterThan"@,
    }
}

/// The lines of a call: the name one level deeper, then the arguments.
pub open spec fn call_lines(name: Seq<char>, args: Seq<ExprView>, pad: Seq<char>) -> Lines
    decreases args, args.len() + 1,
{
    seq![pad + "FnCall"@, pad + " name:"@, pad + "  "@ + name, pad + " args:"@] + exprs_lines(
        args,
        0,
        pad + "  "@,
    )
}

/// The lines of the expressions from `i` on.
pub open spec fn exprs_lines(exprs: Seq<ExprView>, i: nat, pad: Seq<char>) -> Lines
    decreases exprs, exprs.len() - i,
{
    if i >= exprs.len() {
        Seq::empty()
    } else {
        expr_lines(exprs[i as int], pad) + exprs_lines(exprs, i + 1, pad)
    }
}

/// The lines of the items of a list literal from `i` on.
pub open spec fn items_lines(items: Seq<ExprView>, i: nat, pad: Seq<char>) -> Lines
    decreases items, items.len() - i,
{
    if i >= items.len() {
        Seq::empty()
    } else {
        seq![pad + " value: "@] + expr_lines(items[i as int], pad + "  "@) + items_lines(
            items,
            i + 1,
            pad,
        )
    }
}

/// The lines of the fields of an object literal from `i` on.
pub open spec fn fields_lines(fields: Seq<(Seq<char>, ExprView)>, i: nat, pad: Seq<char>) -> Lines
    decreases fields, fields.len() - i,
{
    if i >= fields.len() {
        Seq::empty()
    } else {
        seq![pad + " name:"@, pad + "  "@ + fields[i as int].0, pad + " value: "@] + expr_lines(
            fields[i as int].1,
            pad + "  "@,
        ) + fields_lines(fields, i + 1, pad)
    }
}

/// The lines of an expression at the indentation `pad`.
pub open spec fn expr_lines(e: ExprView, pad: Seq<char>) -> Lines
    decreases e, 0nat,
{
    match e {
        ExprView::Identifier(name) => seq![pad + "Identifier('"@ + name + "')"@],
        ExprView::NumberLiteral(n) => seq![
            pad + "NumberLiteral("@ + decimal_text(n as int) + ")"@,
        ],
        ExprView::BooleanLiteral(b) => seq![
            pad + "BooleanLiteral("@ + (if b {
                "true"@
            } else {
                "false"@
            }) + ")"@,
        ],
        ExprView::StringLiteral(s) => seq![pad + "StringLiteral("@ + s + ")"@],
        ExprView::NullLiteral => seq![pad + "NullLiteral"@],
        ExprView::FnCall(name, args) => call_lines(name, args, pad),
        ExprView::FieldAccess(obj, field) => seq![pad + "FieldAccess"@, pad + " obj:"@]
            + expr_lines(*obj, pad + "  "@) + seq![pad + " field:"@, pad + "  "@ + field],
        ExprView::ObjectLiteral(fields) => seq![pad + "ObjectLiteral"@] + fields_lines(
            fields,
            0,
            pad,
        ),
        ExprView::ListLiteral(items) => seq![pad + "ListLiteral"@] + items_lines(items, 0, pad),
        ExprView::Binary(op, left, right) => seq![pad + "Binary"@, pad + " left:"@] + expr_lines(
            *left,
            pad + "  "@,
        ) + seq![pad + " op:"@, pad + "  "@ + operator_name(op), pad + " right:"@] + expr_lines(
            *right,
            pad + "  "@,
        ),
        ExprView::Unary(op, operand) => seq![pad + "Unary"@, pad + " expr:"@] + expr_lines(
            *operand,
            pad + "  "@,
        ) + seq![pad + " op:"@, pad + "  "@ + operator_name(op)],
    }
}

/// The lines of the statements from `i` on.
pub open spec fn stmts_lines(stmts: Seq<StmtView>, i: nat, pad: Seq<char>) -> Lines
    decreases stmts, stmts.len() - i,
{
    if i >= stmts.len() {
        Seq::empty()
    } else {
        stmt_lines(stmts[i as int], pad) + stmts_lines(stmts, i + 1, pad)
    }
}

/// The lines of a statement at the indentation `pad`.
pub open spec fn stmt_lines(s: StmtView, pad: Seq<char>) -> Lines
    decreases s, 0nat,
{
    match s {
        StmtView::FnCall(name, args) => call_lines(name, args, pad),
        StmtView::Return(e) => seq![pad + "ReturnStmt"@, pad + " expr:"@] + expr_lines(
            e,
            pad + "  "@,
        ),
        StmtView::If(cond, body) => seq![pad + "IfStmt"@, pad + " cond:"@] + expr_lines(
            cond,
            pad + "  "@,
        ) + seq![pad + " body:"@] + stmts_lines(body, 0, pad + "  "@),
        StmtView::While(cond, body) => seq![pad + "WhileStmt"@, pad + " cond:"@] + expr_lines(
            cond,
            pad + "  "@,
        ) + seq![pad + " body:"@] + stmts_lines(body, 0, pad + "  "@),
        StmtView::Assign(var, val) => seq![
            pad + "AssignStmt"@,
            pad + " var:"@,
            pad + "  "@ + var,
            pad + " val:"@,
        ] + expr_lines(val, pad + "  "@),
        StmtView::Decl(var, val) => seq![
            pad + "DeclStmt"@,
            pad + " var:"@,
            pad + "  "@ + var,
            pad + " val:"@,
        ] + expr_lines(val, pad + "  "@),
    }
}

/// The lines of the names from `i` on, one line each.
pub open spec fn names_lines(names: Seq<Seq<char>>, i: nat, pad: Seq<char>) -> Lines
    decreases names.len() - i,
{
    if i >= names.len() {
        Seq::empty()
    } else {
        seq![pad + names[i as int]] + names_lines(names, i + 1, pad)
    }
}

/// The lines of a declaration at the indentation `pad`.
pub open spec fn decl_lines(d: DeclView, pad: Seq<char>) -> Lines {
    match d {
        DeclView::FnDecl(f) => seq![
            pad + "FnDecl"@,
            pad + " name:"@,
            pad + "  "@ + f.name,
            pad + " params:"@,
        ] + names_lines(f.params, 0, pad + "  "@) + seq![pad + " body:"@] + stmts_lines(
            f.body,
            0,
            pad + "  "@,
        ),
    }
}

/// A node of the syntax tree that can be listed.
pub trait TreePrint {
    /// The lines of this node at the indentation `pad`.
    spec fn lines(&self, pad: Seq<char>) -> Lines;

    /// The lines of this node at the level `indent`.
    fn print(&self, indent: usize) -> (r: Vec<String>)
        ensures
            strings_view(r@) == self.lines(padding(indent as nat)),
    ;
}

fn make_padding(indent: usize) -> (pad: String)
    ensures
        pad@ == padding(indent as nat),
{
    let mut pad = String::new();
    let mut i: usize = 0;
    while i < indent
        invariant
            i <= indent,
            pad@ == padding(i as nat),
        decreases indent - i,
    {
        pad.append("  ");
        i = i + 1;
    }
    pad
}

fn deeper(pad: &String) -> (next: String)
    ensures
        next@ == pad@ + "  "@,
{
    let mut next = pad.clone();
    next.append("  ");
    next
}

fn push_line(out: &mut Vec<String>, pad: &String, text: &str)
    ensures
        strings_view(final(out)@) == strings_view(old(out)@).push(pad@ + text@),
{
    let mut line = pad.clone();
    line.append(text);
    out.push(line);
    assert(strings_view(final(out)@) =~= strings_view(old(out)@).push(pad@ + text@));
}

fn push_wrapped(out: &mut Vec<String>, pad: &String, before: &str, text: &str, after: &str)
    ensures
        strings_view(final(out)@) == strings_view(old(out)@).push(
            pad@ + before@ + text@ + after@,
        ),
{
    let mut line = pad.clone();
    line.append(before);
    line.append(text);
    line.append(after);
    out.push(line);
    assert(strings_view(final(out)@) =~= strings_view(old(out)@).push(
        pad@ + before@ + text@ + after@,
    ));
}

fn operator_text(op: Operator) -> (s: &'static str)
    ensures
        s@ == operator_name(op),
{
    match op {
        Operator::Plus => "Plus",
        Operator::Minus => "Minus",
        Operator::Star => "Star",
        Operator::Slash => "Slash",
        Operator::Equals => "Equals",
        Operator::LessThan => "LessThan",
        Operator::GreaterThan => "GreaterThan",
    }
}

fn list_call(name: &String, args: &Vec<Expr>, pad: &String, out: &mut Vec<String>)
    ensures
        strings_view(final(out)@) == strings_view(old(out)@) + call_lines(
            name@,
            exprs_view(*args),
            pad@,
        ),
    decreases args, 1nat,
{
    let ghost before = strings_view(out@);
    let inner = deeper(pad);
    push_line(out, pad, "FnCall");
    push_line(out, pad, " name:");
    push_line(out, &inner, name.as_str());
    push_line(out, pad, " args:");
    let ghost head = strings_view(out@);
    let ghost all = exprs_view(*args);
    let mut i: usize = 0;
    assert(head =~= before + seq![
        pad@ + "FnCall"@,
        pad@ + " name:"@,
        pad@ + "  "@ + name@,
        pad@ + " args:"@,
    ]);
    while i < args.len()
        invariant
            i <= args.len(),
            all == exprs_view(*args),
            inner@ == pad@ + "  "@,
            strings_view(out@) + exprs_lines(all, i as nat, inner@) == head + exprs_lines(
                all,
                0,
                inner@,
            ),
        decreases args.len() - i,
    {
        let ghost so_far = strings_view(out@);
        list_expr(&args[i], &inner, out);
        assert(so_far + (expr_lines(all[i as int], inner@) + exprs_lines(
            all,
            (i + 1) as nat,
            inner@,
        )) =~= strings_view(out@) + exprs_lines(all, (i + 1) as nat, inner@));
        i = i + 1;
    }
    assert(strings_view(out@) + Seq::<Seq<char>>::empty() =~= strings_view(out@));
    assert(before + (seq![
        pad@ + "FnCall"@,
        pad@ + " name:"@,
        pad@ + "  "@ + name@,
        pad@ + " args:"@,
    ] + exprs_lines(all, 0, inner@)) =~= head + exprs_lines(all, 0, inner@));
}

fn list_items(items: &Vec<Expr>, pad: &String, out: &mut Vec<String>)
    ensures
        strings_view(final(out)@) == strings_view(old(out)@) + items_lines(
            exprs_view(*items),
            0,
            pad@,
        ),
    decreases items, 1nat,
{
    let ghost before = strings_view(out@);
    let ghost all = exprs_view(*items);
    let inner = deeper(pad);
    let mut i: usize = 0;
    while i < items.len()
        invariant
            i <= items.len(),
            all == exprs_view(*items),
            inner@ == pad@ + "  "@,
            strings_view(out@) + items_lines(all, i as nat, pad@) == before + items_lines(
                all,
                0,
                pad@,
            ),
        decreases items.len() - i,
    {
        let ghost so_far = strings_view(out@);
        push_line(out, pad, " value: ");
        list_expr(&items[i], &inner, out);
        assert(so_far + (seq![pad@ + " value: "@] + expr_lines(all[i as int], inner@) + items_lines(
            all,
            (i + 1) as nat,
            pad@,
        )) =~= strings_view(out@) + items_lines(all, (i + 1) as nat, pad@));
        i = i + 1;
    }
    assert(strings_view(out@) + Seq::<Seq<char>>::empty() =~= strings_view(out@));
}

fn list_fields(fields: &Vec<(String, Expr)>, pad: &String, out: &mut Vec<String>)
    ensures
        strings_view(final(out)@) == strings_view(old(out)@) + fields_lines(
            expr_view_fields(*fields),
            0,
            pad@,
        ),
    decreases fields, 1nat,
{
    let ghost before = strings_view(out@);
    let ghost all = expr_view_fields(*fields);
    let inner = deeper(pad);
    let mut i: usize = 0;
    while i < fields.len()
        invariant
            i <= fields.len(),
            all == expr_view_fields(*fields),
            inner@ == pad@ + "  "@,
            strings_view(out@) + fields_lines(all, i as nat, pad@) == before + fields_lines(
                all,
                0,
                pad@,
            ),
        decreases fields.len() - i,
    {
        let ghost so_far = strings_view(out@);
        push_line(out, pad, " name:");
        push_line(out, &inner, fields[i].0.as_str());
        push_line(out, pad, " value: ");
        list_expr(&fields[i].1, &inner, out);
        assert(so_far + (seq![
            pad@ + " name:"@,
            pad@ + "  "@ + all[i as int].0,
            pad@ + " value: "@,
        ] + expr_lines(all[i as int].1, inner@) + fields_lines(all, (i + 1) as nat, pad@))
            =~= strings_view(out@) + fields_lines(all, (i + 1) as nat, pad@));
        i = i + 1;
    }
    assert(strings_view(out@) + Seq::<Seq<char>>::empty() =~= strings_view(out@));
}

/// The views of the fields of an object literal.
pub open spec fn expr_view_fields(fields: Vec<(String, Expr)>) -> Seq<(Seq<char>, ExprView)> {
    crate::syntax::expr_view(Expr::ObjectLiteral(fields))->ObjectLiteral_0
}

fn list_expr(e: &Expr, pad: &String, out: &mut Vec<String>)
    ensures
        strings_view(final(out)@) == strings_view(old(out)@) + expr_lines(e@, pad@),
    decreases e, 0nat,
{
    let ghost before = strings_view(out@);
    match e {
        Expr::Identifier(name) => {
            push_wrapped(out, pad, "Identifier('", name.as_str(), "')");
            assert(strings_view(out@) =~= before + expr_lines(e@, pad@));
        },
        Expr::NumberLiteral(n) => {
            let digits = format_i32(*n);
            push_wrapped(out, pad, "NumberLiteral(", digits.as_str(), ")");
            assert(strings_view(out@) =~= before + expr_lines(e@, pad@));
        },
        Expr::BooleanLiteral(b) => {
            push_wrapped(out, pad, "BooleanLiteral(", if *b { "true" } else { "false" }, ")");
            assert(strings_view(out@) =~= before + expr_lines(e@, pad@));
        },
        Expr::StringLiteral(s) => {
            push_wrapped(out, pad, "StringLiteral(", s.as_str(), ")");
            assert(strings_view(out@) =~= before + expr_lines(e@, pad@));
        },
        Expr::NullLiteral => {
            push_line(out, pad, "NullLiteral");
            assert(strings_view(out@) =~= before + expr_lines(e@, pad@));
        },
        Expr::FnCall(call) => {
            list_call(&call.name, &call.args, pad, out);
        },
        Expr::FieldAccess(access) => {
            let inner = deeper(pad);
            push_line(out, pad, "FieldAccess");
            push_line(out, pad, " obj:");
            list_expr(&access.obj, &inner, out);
            push_line(out, pad, " field:");
            push_line(out, &inner, access.field.as_str());
            assert(strings_view(out@) =~= before + expr_lines(e@, pad@));
        },
        Expr::ObjectLiteral(fields) => {
            push_line(out, pad, "ObjectLiteral");
            list_fields(fields, pad, out);
            assert(strings_view(out@) =~= before + expr_lines(e@, pad@));
        },
        Expr::ListLiteral(items) => {
            push_line(out, pad, "ListLiteral");
            list_items(items, pad, out);
            assert(strings_view(out@) =~= before + expr_lines(e@, pad@));
        },
        Expr::Binary(binary) => {
            let inner = deeper(pad);
            push_line(out, pad, "Binary");
            push_line(out, pad, " left:");
            list_expr(&binary.left, &inner, out);
            push_line(out, pad, " op:");
            push_line(out, &inner, operator_text(binary.op));
            push_line(out, pad, " right:");
            list_expr(&binary.right, &inner, out);
            assert(strings_view(out@) =~= before + expr_lines(e@, pad@));
        },
        Expr::Unary(unary) => {
            let inner = deeper(pad);
            push_line(out, pad, "Unary");
            push_line(out, pad, " expr:");
            list_expr(&unary.expr, &inner, out);
            push_line(out, pad, " op:");
            push_line(out, &inner, operator_text(unary.op));
            assert(strings_view(out@) =~= before + expr_lines(e@, pad@));
        },
    }
}

fn list_stmts(stmts: &Vec<Stmt>, pad: &String, out: &mut Vec<String>)
    ensures
        strings_view(final(out)@) == strings_view(old(out)@) + stmts_lines(
            stmts_view(*stmts),
            0,
            pad@,
        ),
    decreases stmts, 1nat,
{
    let ghost before = strings_view(out@);
    let ghost all = stmts_view(*stmts);
    let mut i: usize = 0;
    while i < stmts.len()
        invariant
            i <= stmts.len(),
            all == stmts_view(*stmts),
            strings_view(out@) + stmts_lines(all, i as nat, pad@) == before + stmts_lines(
                all,
                0,
                pad@,
            ),
        decreases stmts.len() - i,
    {
        let ghost so_far = strings_view(out@);
        list_stmt(&stmts[i], pad, out);
        assert(so_far + (stmt_lines(all[i as int], pad@) + stmts_lines(
            all,
            (i + 1) as nat,
            pad@,
        )) =~= strings_view(out@) + stmts_lines(all, (i + 1) as nat, pad@));
        i = i + 1;
    }
    assert(strings_view(out@) + Seq::<Seq<char>>::empty() =~= strings_view(out@));
}

fn list_stmt(s: &Stmt, pad: &String, out: &mut Vec<String>)
    ensures
        strings_view(final(out)@) == strings_view(old(out)@) + stmt_lines(s@, pad@),
    decreases s, 0nat,
{
    let ghost before = strings_view(out@);
    match s {
        Stmt::FnCall(call) => {
            list_call(&call.name, &call.args, pad, out);
        },
        Stmt::Return(ret) => {
            let inner = deeper(pad);
            push_line(out, pad, "ReturnStmt");
            push_line(out, pad, " expr:");
            list_expr(&ret.expr, &inner, out);
            assert(strings_view(out@) =~= before + stmt_lines(s@, pad@));
        },
        Stmt::If(branch) => {
            let inner = deeper(pad);
            push_line(out, pad, "IfStmt");
            push_line(out, pad, " cond:");
            list_expr(&branch.cond, &inner, out);
            push_line(out, pad, " body:");
            list_stmts(&branch.body, &inner, out);
            assert(strings_view(out@) =~= before + stmt_lines(s@, pad@));
        },
        Stmt::While(repeat) => {
            let inner = deeper(pad);
            push_line(out, pad, "WhileStmt");
            push_line(out, pad, " cond:");
            list_expr(&repeat.cond, &inner, out);
            push_line(out, pad, " body:");
            list_stmts(&repeat.body, &inner, out);
            assert(strings_view(out@) =~= before + stmt_lines(s@, pad@));
        },
        Stmt::Assign(assignment) => {
            let inner = deeper(pad);
            push_line(out, pad, "AssignStmt");
            push_line(out, pad, " var:");
            push_line(out, &inner, assignment.var.as_str());
            push_line(out, pad, " val:");
            list_expr(&assignment.val, &inner, out);
            assert(strings_view(out@) =~= before + stmt_lines(s@, pad@));
        },
        Stmt::Decl(declaration) => {
            let inner = deeper(pad);
            push_line(out, pad, "DeclStmt");
            push_line(out, pad, " var:");
            push_line(out, &inner, declaration.var.as_str());
            push_line(out, pad, " val:");
            list_expr(&declaration.val, &inner, out);
            assert(strings_view(out@) =~= before + stmt_lines(s@, pad@));
        },
    }
}

fn list_names(names: &Vec<String>, pad: &String, out: &mut Vec<String>)
    ensures
        strings_view(final(out)@) == strings_view(old(out)@) + names_lines(
            strings_view(names@),
            0,
            pad@,
        ),
{
    let ghost before = strings_view(out@);
    let ghost all = strings_view(names@);
    let mut i: usize = 0;
    while i < names.len()
        invariant
            i <= names.len(),
            all == strings_view(names@),
            strings_view(out@) + names_lines(all, i as nat, pad@) == before + names_lines(
                all,
                0,
                pad@,
            ),
        decreases names.len() - i,
    {
        let ghost so_far = strings_view(out@);
        push_line(out, pad, names[i].as_str());
        assert(so_far + (seq![pad@ + all[i as int]] + names_lines(all, (i + 1) as nat, pad@))
            =~= strings_view(out@) + names_lines(all, (i + 1) as nat, pad@));
        i = i + 1;
    }
    assert(strings_view(out@) + Seq::<Seq<char>>::empty() =~= strings_view(out@));
}

fn list_decl(d: &Decl, pad: &String, out: &mut Vec<String>)
    ensures
        strings_view(final(out)@) == strings_view(old(out)@) + decl_lines(d@, pad@),
{
    let ghost before = strings_view(out@);
    match d {
        Decl::FnDecl(f) => {
            let inner = deeper(pad);
            push_line(out, pad, "FnDecl");
            push_line(out, pad, " name:");
            push_line(out, &inner, f.name.as_str());
            push_line(out, pad, " params:");
            list_names(&f.params, &inner, out);
            push_line(out, pad, " body:");
            list_stmts(&f.body, &inner, out);
            assert(strings_view(out@) =~= before + decl_lines(d@, pad@));
        },
    }
}

impl TreePrint for Expr {
    open spec fn lines(&self, pad: Seq<char>) -> Lines {
        expr_lines(self@, pad)
    }

    fn print(&self, indent: usize) -> (r: Vec<String>) {
        let pad = make_padding(indent);
        let mut out: Vec<String> = Vec::new();
        assert(strings_view(out@) =~= Seq::<Seq<char>>::empty());
        list_expr(self, &pad, &mut out);
        assert(Seq::<Seq<char>>::empty() + expr_lines(self@, pad@) =~= expr_lines(self@, pad@));
        out
    }
}

impl TreePrint for Stmt {
    open spec fn lines(&self, pad: Seq<char>) -> Lines {
        stmt_lines(self@, pad)
    }

    fn print(&self, indent: usize) -> (r: Vec<String>) {
        let pad = make_padding(indent);
        let mut out: Vec<String> = Vec::new();
        assert(strings_view(out@) =~= Seq::<Seq<char>>::empty());
        list_stmt(self, &pad, &mut out);
        assert(Seq::<Seq<char>>::empty() + stmt_lines(self@, pad@) =~= stmt_lines(self@, pad@));
        out
    }
}

impl TreePrint for Decl {
    open spec fn lines(&self, pad: Seq<char>) -> Lines {
        decl_lines(self@, pad)
    }

    fn print(&self, indent: usize) -> (r: Vec<String>) {
        let pad = make_padding(indent);
        let mut out: Vec<String> = Vec::new();
        assert(strings_view(out@) =~= Seq::<Seq<char>>::empty());
        list_decl(self, &pad, &mut out);
        assert(Seq::<Seq<char>>::empty() + decl_lines(self@, pad@) =~= decl_lines(self@, pad@));
        out
    }
}

} // verus!
