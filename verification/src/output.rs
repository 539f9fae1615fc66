//! What a run has written stays written: every step of a run adds to the
//! output and takes nothing back, whether the step succeeds, fails or is
//! stopped.

use vstd::prelude::*;
use crate::bindings::{put, FieldsView};
use crate::registry::{arity, Builtin, FnObjView, FuncsView};
use crate::semantics::{
    as_condition, bind_params, call_builtin, call_fn, eval_call, eval_expr, eval_fields, eval_list,
    exec_body, exec_stmt, exec_stmts, run_program, string_values, with_builtins, with_decls,
    FlowView, Outcome, RuntimeErrorView, RuntimeView,
};
use crate::syntax::{DeclView, ExprView, StmtView};
use crate::value::ValueView;

verus! {

/// Whether a step from `before` kept what was written and the way the input
/// is given.
pub open spec fn keeps_output<T>(before: RuntimeView, r: Outcome<T>) -> bool {
    &&& before.output.is_prefix_of(r.1.output)
    &&& r.1.input_open == before.input_open
}

/// Whether what the one step wrote is the beginning of what the other wrote.
pub open spec fn wrote_first<T>(less: Outcome<T>, more: Outcome<T>) -> bool {
    less.1.output.is_prefix_of(more.1.output)
}

/// A builtin keeps what was written.
pub proof fn lemma_builtin_output(b: Builtin, st: RuntimeView, args: Seq<ValueView>, fuel: nat)
    ensures
        keeps_output(st, call_builtin(b, st, args, fuel)),
{
}

/// A call keeps what was written.
pub proof fn lemma_call_fn_output(
    funcs: FuncsView,
    st: RuntimeView,
    f: FnObjView,
    args: Seq<ValueView>,
    fuel: nat,
)
    ensures
        keeps_output(st, call_fn(funcs, st, f, args, fuel)),
    decreases fuel, 2nat, f, 0nat,
{
    if args.len() == arity(f) {
        match f {
            FnObjView::Builtin(b) => {
                lemma_builtin_output(b, st, args, fuel);
            },
            FnObjView::Defined { params, body } => {
                let entered = RuntimeView {
                    scopes: st.scopes.push(bind_params(params, args)),
                    ..st
                };
                lemma_exec_body_output(funcs, entered, body, fuel);
            },
        }
    }
}

/// The evaluation of a call keeps what was written.
pub proof fn lemma_eval_call_output(
    funcs: FuncsView,
    st: RuntimeView,
    name: Seq<char>,
    args: Seq<ExprView>,
    fuel: nat,
)
    ensures
        keeps_output(st, eval_call(funcs, st, name, args, fuel)),
    decreases fuel, 0nat, args, args.len() + 1,
{
    if funcs.contains_key(name) {
        lemma_eval_list_output(funcs, st, args, 0, Seq::empty(), fuel);
        match eval_list(funcs, st, args, 0, Seq::empty(), fuel) {
            (Ok(values), st1) => {
                if fuel > 0 {
                    lemma_call_fn_output(funcs, st1, funcs[name], values, (fuel - 1) as nat);
                }
            },
            _ => {},
        }
    }
}

/// The evaluation of a list of expressions keeps what was written.
pub proof fn lemma_eval_list_output(
    funcs: FuncsView,
    st: RuntimeView,
    items: Seq<ExprView>,
    i: nat,
    acc: Seq<ValueView>,
    fuel: nat,
)
    ensures
        keeps_output(st, eval_list(funcs, st, items, i, acc, fuel)),
    decreases fuel, 0nat, items, items.len() - i,
{
    if i < items.len() {
        lemma_eval_expr_output(funcs, st, items[i as int], fuel);
        match eval_expr(funcs, st, items[i as int], fuel) {
            (Ok(v), st1) => {
                lemma_eval_list_output(funcs, st1, items, i + 1, acc.push(v), fuel);
            },
            _ => {},
        }
    }
}

/// The evaluation of the fields of an object literal keeps what was written.
pub proof fn lemma_eval_fields_output(
    funcs: FuncsView,
    st: RuntimeView,
    fields: Seq<(Seq<char>, ExprView)>,
    i: nat,
    acc: FieldsView,
    fuel: nat,
)
    ensures
        keeps_output(st, eval_fields(funcs, st, fields, i, acc, fuel)),
    decreases fuel, 0nat, fields, fields.len() - i,
{
    if i < fields.len() {
        lemma_eval_expr_output(funcs, st, fields[i as int].1, fuel);
        match eval_expr(funcs, st, fields[i as int].1, fuel) {
            (Ok(v), st1) => {
                lemma_eval_fields_output(
                    funcs,
                    st1,
                    fields,
                    i + 1,
                    put(acc, fields[i as int].0, v),
                    fuel,
                );
            },
            _ => {},
        }
    }
}

/// The evaluation of an expression keeps what was written.
pub proof fn lemma_eval_expr_output(funcs: FuncsView, st: RuntimeView, e: ExprView, fuel: nat)
    ensures
        keeps_output(st, eval_expr(funcs, st, e, fuel)),
    decreases fuel, 0nat, e, 0nat,
{
    match e {
        ExprView::FnCall(name, args) => {
            lemma_eval_call_output(funcs, st, name, args, fuel);
        },
        ExprView::ObjectLiteral(fields) => {
            lemma_eval_fields_output(funcs, st, fields, 0, Seq::empty(), fuel);
        },
        ExprView::ListLiteral(items) => {
            lemma_eval_list_output(funcs, st, items, 0, Seq::empty(), fuel);
        },
        ExprView::Binary(op, left, right) => {
            lemma_eval_expr_output(funcs, st, *left, fuel);
            match eval_expr(funcs, st, *left, fuel) {
                (Ok(a), st1) => {
                    lemma_eval_expr_output(funcs, st1, *right, fuel);
                },
                _ => {},
            }
        },
        ExprView::Unary(op, operand) => {
            lemma_eval_expr_output(funcs, st, *operand, fuel);
        },
        _ => {},
    }
}

/// A body keeps what was written.
pub proof fn lemma_exec_body_output(
    funcs: FuncsView,
    st: RuntimeView,
    body: Seq<StmtView>,
    fuel: nat,
)
    ensures
        keeps_output(st, exec_body(funcs, st, body, fuel)),
    decreases fuel, 1nat, body, body.len() + 1,
{
    let entered = RuntimeView { scopes: st.scopes.push(Seq::empty()), ..st };
    lemma_exec_stmts_output(funcs, entered, body, 0, fuel);
}

/// Statements keep what was written.
pub proof fn lemma_exec_stmts_output(
    funcs: FuncsView,
    st: RuntimeView,
    body: Seq<StmtView>,
    i: nat,
    fuel: nat,
)
    ensures
        keeps_output(st, exec_stmts(funcs, st, body, i, fuel)),
    decreases fuel, 1nat, body, body.len() - i,
{
    if i < body.len() {
        lemma_exec_stmt_output(funcs, st, body[i as int], fuel);
        match exec_stmt(funcs, st, body[i as int], fuel) {
            (Ok(FlowView::Fallthrough), st1) => {
                lemma_exec_stmts_output(funcs, st1, body, i + 1, fuel);
            },
            _ => {},
        }
    }
}

/// A statement keeps what was written.
pub proof fn lemma_exec_stmt_output(funcs: FuncsView, st: RuntimeView, s: StmtView, fuel: nat)
    ensures
        keeps_output(st, exec_stmt(funcs, st, s, fuel)),
    decreases fuel, 1nat, s, 0nat,
{
    match s {
        StmtView::FnCall(name, args) => {
            lemma_eval_call_output(funcs, st, name, args, fuel);
        },
        StmtView::Return(e) => {
            lemma_eval_expr_output(funcs, st, e, fuel);
        },
        StmtView::If(cond, body) => {
            lemma_eval_expr_output(funcs, st, cond, fuel);
            match eval_expr(funcs, st, cond, fuel) {
                (Ok(c), st1) => {
                    if as_condition(c) == Ok::<bool, RuntimeErrorView>(true) {
                        lemma_exec_body_output(funcs, st1, body, fuel);
                    }
                },
                _ => {},
            }
        },
        StmtView::While(cond, body) => {
            lemma_eval_expr_output(funcs, st, cond, fuel);
            match eval_expr(funcs, st, cond, fuel) {
                (Ok(c), st1) => {
                    if as_condition(c) == Ok::<bool, RuntimeErrorView>(true) {
                        lemma_exec_body_output(funcs, st1, body, fuel);
                        match exec_body(funcs, st1, body, fuel) {
                            (Ok(FlowView::Fallthrough), st2) => {
                                if fuel > 0 {
                                    lemma_exec_stmt_output(funcs, st2, s, (fuel - 1) as nat);
                                }
                            },
                            _ => {},
                        }
                    }
                },
                _ => {},
            }
        },
        StmtView::Assign(name, e) => {
            lemma_eval_expr_output(funcs, st, e, fuel);
        },
        StmtView::Decl(name, e) => {
            lemma_eval_expr_output(funcs, st, e, fuel);
        },
    }
}

/// A run of a program keeps what was written before it.
pub proof fn lemma_run_program_output(
    funcs: FuncsView,
    st: RuntimeView,
    decls: Seq<DeclView>,
    args: Seq<Seq<char>>,
    fuel: nat,
)
    ensures
        keeps_output(st, run_program(funcs, st, decls, args, fuel)),
{
    let table = with_decls(with_builtins(funcs), decls);
    if table.contains_key("main"@) {
        lemma_call_fn_output(table, st, table["main"@], string_values(args), fuel);
    }
}

} // verus!
