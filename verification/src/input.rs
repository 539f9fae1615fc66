//! The input may come in parts. A run that does not stop for input does the
//! same when more lines are there, and leaves them unread. A run that stops
//! for input has written the beginning of what the run with more lines
//! writes, whether more lines follow those or not. So a run that stopped
//! for input can be run again from the start when the next line is there,
//! and what it wrote need not be written again.

use vstd::prelude::*;
use crate::bindings::{put, FieldsView};
use crate::budget::{lemma_run_program_budget, out_of_fuel};
use crate::output::{
    lemma_call_fn_output, lemma_eval_expr_output, lemma_eval_fields_output,
    lemma_eval_list_output, lemma_exec_body_output, lemma_exec_stmt_output,
    lemma_exec_stmts_output, wrote_first,
};
use crate::registry::{arity, Builtin, FnObjView, FuncsView};
use crate::semantics::{
    as_condition, bind_params, call_builtin, call_fn, eval_call, eval_expr, eval_fields, eval_list,
    exec_body, exec_stmt, exec_stmts, run_program, string_values, with_builtins, with_decls,
    FlowView, Outcome, RuntimeErrorView, RuntimeView,
};
use crate::syntax::{DeclView, ExprView, StmtView};
use crate::value::ValueView;

verus! {

/// The state with the lines `extra` after those that are there. `open` says
/// whether more lines may follow.
pub open spec fn with_more_input(
    st: RuntimeView,
    extra: Seq<Seq<char>>,
    open: bool,
) -> RuntimeView {
    RuntimeView { input: st.input + extra, input_open: open, ..st }
}

/// Whether this step of a run stopped for input.
pub open spec fn needs_input<T>(r: Outcome<T>) -> bool {
    r.0 matches Err(RuntimeErrorView::NeedsInput)
}

/// Whether the step `with_more`, made with more lines of input, did what the
/// step `without` did, and left the further lines unread.
pub open spec fn did_the_same<T>(
    without: Outcome<T>,
    with_more: Outcome<T>,
    extra: Seq<Seq<char>>,
    open: bool,
) -> bool {
    with_more == (without.0, with_more_input(without.1, extra, open))
}

/// A builtin that does not stop for input does the same with more input.
pub proof fn lemma_builtin_more_input(
    b: Builtin,
    st: RuntimeView,
    args: Seq<ValueView>,
    fuel: nat,
    extra: Seq<Seq<char>>,
    open: bool,
)
    requires
        st.input_open,
        !needs_input(call_builtin(b, st, args, fuel)),
    ensures
        did_the_same(
            call_builtin(b, st, args, fuel),
            call_builtin(b, with_more_input(st, extra, open), args, fuel),
            extra,
            open,
        ),
{
    if st.input.len() > 0 {
        assert((st.input + extra).drop_first() =~= st.input.drop_first() + extra);
    }
}

/// A call that does not stop for input does the same with more input.
pub proof fn lemma_call_fn_more_input(
    funcs: FuncsView,
    st: RuntimeView,
    f: FnObjView,
    args: Seq<ValueView>,
    fuel: nat,
    extra: Seq<Seq<char>>,
    open: bool,
)
    requires
        st.input_open,
        !needs_input(call_fn(funcs, st, f, args, fuel)),
    ensures
        did_the_same(
            call_fn(funcs, st, f, args, fuel),
            call_fn(funcs, with_more_input(st, extra, open), f, args, fuel),
            extra,
            open,
        ),
    decreases fuel, 2nat, f, 0nat,
{
    if args.len() == arity(f) {
        match f {
            FnObjView::Builtin(b) => {
                lemma_builtin_more_input(b, st, args, fuel, extra, open);
            },
            FnObjView::Defined { params, body } => {
                let entered = RuntimeView {
                    scopes: st.scopes.push(bind_params(params, args)),
                    ..st
                };
                lemma_exec_body_more_input(funcs, entered, body, fuel, extra, open);
            },
        }
    }
}

/// The evaluation of a call that does not stop for input does the same with
/// more input.
pub proof fn lemma_eval_call_more_input(
    funcs: FuncsView,
    st: RuntimeView,
    name: Seq<char>,
    args: Seq<ExprView>,
    fuel: nat,
    extra: Seq<Seq<char>>,
    open: bool,
)
    requires
        st.input_open,
        !needs_input(eval_call(funcs, st, name, args, fuel)),
    ensures
        did_the_same(
            eval_call(funcs, st, name, args, fuel),
            eval_call(funcs, with_more_input(st, extra, open), name, args, fuel),
            extra,
            open,
        ),
    decreases fuel, 0nat, args, args.len() + 1,
{
    if funcs.contains_key(name) {
        lemma_eval_list_more_input(funcs, st, args, 0, Seq::empty(), fuel, extra, open);
        lemma_eval_list_output(funcs, st, args, 0, Seq::empty(), fuel);
        match eval_list(funcs, st, args, 0, Seq::empty(), fuel) {
            (Ok(values), st1) => {
                if fuel > 0 {
                    lemma_call_fn_more_input(
                        funcs,
                        st1,
                        funcs[name],
                        values,
                        (fuel - 1) as nat,
                        extra,
                        open,
                    );
                }
            },
            _ => {},
        }
    }
}

/// The evaluation of a list of expressions that does not stop for input does
/// the same with more input.
pub proof fn lemma_eval_list_more_input(
    funcs: FuncsView,
    st: RuntimeView,
    items: Seq<ExprView>,
    i: nat,
    acc: Seq<ValueView>,
    fuel: nat,
    extra: Seq<Seq<char>>,
    open: bool,
)
    requires
        st.input_open,
        !needs_input(eval_list(funcs, st, items, i, acc, fuel)),
    ensures
        did_the_same(
            eval_list(funcs, st, items, i, acc, fuel),
            eval_list(funcs, with_more_input(st, extra, open), items, i, acc, fuel),
            extra,
            open,
        ),
    decreases fuel, 0nat, items, items.len() - i,
{
    if i < items.len() {
        lemma_eval_expr_more_input(funcs, st, items[i as int], fuel, extra, open);
        lemma_eval_expr_output(funcs, st, items[i as int], fuel);
        match eval_expr(funcs, st, items[i as int], fuel) {
            (Ok(v), st1) => {
                lemma_eval_list_more_input(
                    funcs,
                    st1,
                    items,
                    i + 1,
                    acc.push(v),
                    fuel,
                    extra,
                    open,
                );
            },
            _ => {},
        }
    }
}

/// The evaluation of the fields of an object literal that does not stop for
/// input does the same with more input.
pub proof fn lemma_eval_fields_more_input(
    funcs: FuncsView,
    st: RuntimeView,
    fields: Seq<(Seq<char>, ExprView)>,
    i: nat,
    acc: FieldsView,
    fuel: nat,
    extra: Seq<Seq<char>>,
    open: bool,
)
    requires
        st.input_open,
        !needs_input(eval_fields(funcs, st, fields, i, acc, fuel)),
    ensures
        did_the_same(
            eval_fields(funcs, st, fields, i, acc, fuel),
            eval_fields(funcs, with_more_input(st, extra, open), fields, i, acc, fuel),
            extra,
            open,
        ),
    decreases fuel, 0nat, fields, fields.len() - i,
{
    if i < fields.len() {
        lemma_eval_expr_more_input(funcs, st, fields[i as int].1, fuel, extra, open);
        lemma_eval_expr_output(funcs, st, fields[i as int].1, fuel);
        match eval_expr(funcs, st, fields[i as int].1, fuel) {
            (Ok(v), st1) => {
                lemma_eval_fields_more_input(
                    funcs,
                    st1,
                    fields,
                    i + 1,
                    put(acc, fields[i as int].0, v),
                    fuel,
                    extra,
                    open,
                );
            },
            _ => {},
        }
    }
}

/// The evaluation of an expression that does not stop for input does the same
/// with more input.
pub proof fn lemma_eval_expr_more_input(
    funcs: FuncsView,
    st: RuntimeView,
    e: ExprView,
    fuel: nat,
    extra: Seq<Seq<char>>,
    open: bool,
)
    requires
        st.input_open,
        !needs_input(eval_expr(funcs, st, e, fuel)),
    ensures
        did_the_same(
            eval_expr(funcs, st, e, fuel),
            eval_expr(funcs, with_more_input(st, extra, open), e, fuel),
            extra,
            open,
        ),
    decreases fuel, 0nat, e, 0nat,
{
    match e {
        ExprView::FnCall(name, args) => {
            lemma_eval_call_more_input(funcs, st, name, args, fuel, extra, open);
        },
        ExprView::ObjectLiteral(fields) => {
            lemma_eval_fields_more_input(funcs, st, fields, 0, Seq::empty(), fuel, extra, open);
        },
        ExprView::ListLiteral(items) => {
            lemma_eval_list_more_input(funcs, st, items, 0, Seq::empty(), fuel, extra, open);
        },
        ExprView::Binary(op, left, right) => {
            lemma_eval_expr_more_input(funcs, st, *left, fuel, extra, open);
            lemma_eval_expr_output(funcs, st, *left, fuel);
            match eval_expr(funcs, st, *left, fuel) {
                (Ok(a), st1) => {
                    lemma_eval_expr_more_input(funcs, st1, *right, fuel, extra, open);
                },
                _ => {},
            }
        },
        ExprView::Unary(op, operand) => {
            lemma_eval_expr_more_input(funcs, st, *operand, fuel, extra, open);
        },
        _ => {},
    }
}

/// A body that does not stop for input does the same with more input.
pub proof fn lemma_exec_body_more_input(
    funcs: FuncsView,
    st: RuntimeView,
    body: Seq<StmtView>,
    fuel: nat,
    extra: Seq<Seq<char>>,
    open: bool,
)
    requires
        st.input_open,
        !needs_input(exec_body(funcs, st, body, fuel)),
    ensures
        did_the_same(
            exec_body(funcs, st, body, fuel),
            exec_body(funcs, with_more_input(st, extra, open), body, fuel),
            extra,
            open,
        ),
    decreases fuel, 1nat, body, body.len() + 1,
{
    let entered = RuntimeView { scopes: st.scopes.push(Seq::empty()), ..st };
    lemma_exec_stmts_more_input(funcs, entered, body, 0, fuel, extra, open);
}

/// Statements that do not stop for input do the same with more input.
pub proof fn lemma_exec_stmts_more_input(
    funcs: FuncsView,
    st: RuntimeView,
    body: Seq<StmtView>,
    i: nat,
    fuel: nat,
    extra: Seq<Seq<char>>,
    open: bool,
)
    requires
        st.input_open,
        !needs_input(exec_stmts(funcs, st, body, i, fuel)),
    ensures
        did_the_same(
            exec_stmts(funcs, st, body, i, fuel),
            exec_stmts(funcs, with_more_input(st, extra, open), body, i, fuel),
            extra,
            open,
        ),
    decreases fuel, 1nat, body, body.len() - i,
{
    if i < body.len() {
        lemma_exec_stmt_more_input(funcs, st, body[i as int], fuel, extra, open);
        lemma_exec_stmt_output(funcs, st, body[i as int], fuel);
        match exec_stmt(funcs, st, body[i as int], fuel) {
            (Ok(FlowView::Fallthrough), st1) => {
                lemma_exec_stmts_more_input(funcs, st1, body, i + 1, fuel, extra, open);
            },
            _ => {},
        }
    }
}

/// A statement that does not stop for input does the same with more input.
pub proof fn lemma_exec_stmt_more_input(
    funcs: FuncsView,
    st: RuntimeView,
    s: StmtView,
    fuel: nat,
    extra: Seq<Seq<char>>,
    open: bool,
)
    requires
        st.input_open,
        !needs_input(exec_stmt(funcs, st, s, fuel)),
    ensures
        did_the_same(
            exec_stmt(funcs, st, s, fuel),
            exec_stmt(funcs, with_more_input(st, extra, open), s, fuel),
            extra,
            open,
        ),
    decreases fuel, 1nat, s, 0nat,
{
    match s {
        StmtView::FnCall(name, args) => {
            lemma_eval_call_more_input(funcs, st, name, args, fuel, extra, open);
        },
        StmtView::Return(e) => {
            lemma_eval_expr_more_input(funcs, st, e, fuel, extra, open);
        },
        StmtView::If(cond, body) => {
            lemma_eval_expr_more_input(funcs, st, cond, fuel, extra, open);
            lemma_eval_expr_output(funcs, st, cond, fuel);
            match eval_expr(funcs, st, cond, fuel) {
                (Ok(c), st1) => {
                    if as_condition(c) == Ok::<bool, RuntimeErrorView>(true) {
                        lemma_exec_body_more_input(funcs, st1, body, fuel, extra, open);
                    }
                },
                _ => {},
            }
        },
        StmtView::While(cond, body) => {
            lemma_eval_expr_more_input(funcs, st, cond, fuel, extra, open);
            lemma_eval_expr_output(funcs, st, cond, fuel);
            match eval_expr(funcs, st, cond, fuel) {
                (Ok(c), st1) => {
                    if as_condition(c) == Ok::<bool, RuntimeErrorView>(true) {
                        lemma_exec_body_more_input(funcs, st1, body, fuel, extra, open);
                        lemma_exec_body_output(funcs, st1, body, fuel);
                        match exec_body(funcs, st1, body, fuel) {
                            (Ok(FlowView::Fallthrough), st2) => {
                                if fuel > 0 {
                                    lemma_exec_stmt_more_input(
                                        funcs,
                                        st2,
                                        s,
                                        (fuel - 1) as nat,
                                        extra,
                                        open,
                                    );
                                }
                            },
                            _ => {},
                        }
                    }
                },
                _ => {},
            }
        },
        StmtView::Assign(name, e) => {
            lemma_eval_expr_more_input(funcs, st, e, fuel, extra, open);
        },
        StmtView::Decl(name, e) => {
            lemma_eval_expr_more_input(funcs, st, e, fuel, extra, open);
        },
    }
}

/// A run of a program that does not stop for input gives the same result and
/// writes the same when more lines of input are there.
pub proof fn lemma_run_program_more_input(
    funcs: FuncsView,
    st: RuntimeView,
    decls: Seq<DeclView>,
    args: Seq<Seq<char>>,
    fuel: nat,
    extra: Seq<Seq<char>>,
    open: bool,
)
    requires
        st.input_open,
        !needs_input(run_program(funcs, st, decls, args, fuel)),
    ensures
        did_the_same(
            run_program(funcs, st, decls, args, fuel),
            run_program(funcs, with_more_input(st, extra, open), decls, args, fuel),
            extra,
            open,
        ),
{
    let table = with_decls(with_builtins(funcs), decls);
    if table.contains_key("main"@) {
        lemma_call_fn_more_input(
            table,
            st,
            table["main"@],
            string_values(args),
            fuel,
            extra,
            open,
        );
    }
}

/// What a builtin writes is the beginning of what it writes with more input.
pub proof fn lemma_builtin_input_prefix(
    b: Builtin,
    st: RuntimeView,
    args: Seq<ValueView>,
    fuel: nat,
    extra: Seq<Seq<char>>,
    open: bool,
)
    requires
        st.input_open,
    ensures
        wrote_first(
            call_builtin(b, st, args, fuel),
            call_builtin(b, with_more_input(st, extra, open), args, fuel),
        ),
{
    if !needs_input(call_builtin(b, st, args, fuel)) {
        lemma_builtin_more_input(b, st, args, fuel, extra, open);
    }
}

/// What a call writes is the beginning of what it writes with more input.
pub proof fn lemma_call_fn_input_prefix(
    funcs: FuncsView,
    st: RuntimeView,
    f: FnObjView,
    args: Seq<ValueView>,
    fuel: nat,
    extra: Seq<Seq<char>>,
    open: bool,
)
    requires
        st.input_open,
    ensures
        wrote_first(
            call_fn(funcs, st, f, args, fuel),
            call_fn(funcs, with_more_input(st, extra, open), f, args, fuel),
        ),
    decreases fuel, 2nat, f, 0nat,
{
    if args.len() == arity(f) {
        match f {
            FnObjView::Builtin(b) => {
                lemma_builtin_input_prefix(b, st, args, fuel, extra, open);
            },
            FnObjView::Defined { params, body } => {
                let entered = RuntimeView {
                    scopes: st.scopes.push(bind_params(params, args)),
                    ..st
                };
                lemma_exec_body_input_prefix(funcs, entered, body, fuel, extra, open);
            },
        }
    }
}

/// What the evaluation of a call writes is the beginning of what it writes
/// with more input.
pub proof fn lemma_eval_call_input_prefix(
    funcs: FuncsView,
    st: RuntimeView,
    name: Seq<char>,
    args: Seq<ExprView>,
    fuel: nat,
    extra: Seq<Seq<char>>,
    open: bool,
)
    requires
        st.input_open,
    ensures
        wrote_first(
            eval_call(funcs, st, name, args, fuel),
            eval_call(funcs, with_more_input(st, extra, open), name, args, fuel),
        ),
    decreases fuel, 0nat, args, args.len() + 1,
{
    if funcs.contains_key(name) {
        let more = with_more_input(st, extra, open);
        lemma_eval_list_input_prefix(funcs, st, args, 0, Seq::empty(), fuel, extra, open);
        if !needs_input(eval_list(funcs, st, args, 0, Seq::empty(), fuel)) {
            lemma_eval_list_more_input(funcs, st, args, 0, Seq::empty(), fuel, extra, open);
            lemma_eval_list_output(funcs, st, args, 0, Seq::empty(), fuel);
            match eval_list(funcs, st, args, 0, Seq::empty(), fuel) {
                (Ok(values), st1) => {
                    if fuel > 0 {
                        lemma_call_fn_input_prefix(
                            funcs,
                            st1,
                            funcs[name],
                            values,
                            (fuel - 1) as nat,
                            extra,
                            open,
                        );
                    }
                },
                _ => {},
            }
        } else {
            match eval_list(funcs, more, args, 0, Seq::empty(), fuel) {
                (Ok(values), st1) => {
                    if fuel > 0 {
                        lemma_call_fn_output(funcs, st1, funcs[name], values, (fuel - 1) as nat);
                    }
                },
                _ => {},
            }
        }
    }
}

/// What the evaluation of a list of expressions writes is the beginning of
/// what it writes with more input.
pub proof fn lemma_eval_list_input_prefix(
    funcs: FuncsView,
    st: RuntimeView,
    items: Seq<ExprView>,
    i: nat,
    acc: Seq<ValueView>,
    fuel: nat,
    extra: Seq<Seq<char>>,
    open: bool,
)
    requires
        st.input_open,
    ensures
        wrote_first(
            eval_list(funcs, st, items, i, acc, fuel),
            eval_list(funcs, with_more_input(st, extra, open), items, i, acc, fuel),
        ),
    decreases fuel, 0nat, items, items.len() - i,
{
    if i < items.len() {
        let more = with_more_input(st, extra, open);
        lemma_eval_expr_input_prefix(funcs, st, items[i as int], fuel, extra, open);
        if !needs_input(eval_expr(funcs, st, items[i as int], fuel)) {
            lemma_eval_expr_more_input(funcs, st, items[i as int], fuel, extra, open);
            lemma_eval_expr_output(funcs, st, items[i as int], fuel);
            match eval_expr(funcs, st, items[i as int], fuel) {
                (Ok(v), st1) => {
                    lemma_eval_list_input_prefix(
                        funcs,
                        st1,
                        items,
                        i + 1,
                        acc.push(v),
                        fuel,
                        extra,
                        open,
                    );
                },
                _ => {},
            }
        } else {
            match eval_expr(funcs, more, items[i as int], fuel) {
                (Ok(v), st1) => {
                    lemma_eval_list_output(funcs, st1, items, i + 1, acc.push(v), fuel);
                },
                _ => {},
            }
        }
    }
}

/// What the evaluation of the fields of an object literal writes is the
/// beginning of what it writes with more input.
pub proof fn lemma_eval_fields_input_prefix(
    funcs: FuncsView,
    st: RuntimeView,
    fields: Seq<(Seq<char>, ExprView)>,
    i: nat,
    acc: FieldsView,
    fuel: nat,
    extra: Seq<Seq<char>>,
    open: bool,
)
    requires
        st.input_open,
    ensures
        wrote_first(
            eval_fields(funcs, st, fields, i, acc, fuel),
            eval_fields(funcs, with_more_input(st, extra, open), fields, i, acc, fuel),
        ),
    decreases fuel, 0nat, fields, fields.len() - i,
{
    if i < fields.len() {
        let more = with_more_input(st, extra, open);
        let name = fields[i as int].0;
        lemma_eval_expr_input_prefix(funcs, st, fields[i as int].1, fuel, extra, open);
        if !needs_input(eval_expr(funcs, st, fields[i as int].1, fuel)) {
            lemma_eval_expr_more_input(funcs, st, fields[i as int].1, fuel, extra, open);
            lemma_eval_expr_output(funcs, st, fields[i as int].1, fuel);
            match eval_expr(funcs, st, fields[i as int].1, fuel) {
                (Ok(v), st1) => {
                    lemma_eval_fields_input_prefix(
                        funcs,
                        st1,
                        fields,
                        i + 1,
                        put(acc, name, v),
                        fuel,
                        extra,
                        open,
                    );
                },
                _ => {},
            }
        } else {
            match eval_expr(funcs, more, fields[i as int].1, fuel) {
                (Ok(v), st1) => {
                    lemma_eval_fields_output(funcs, st1, fields, i + 1, put(acc, name, v), fuel);
                },
                _ => {},
            }
        }
    }
}

/// What the evaluation of an expression writes is the beginning of what it
/// writes with more input.
pub proof fn lemma_eval_expr_input_prefix(
    funcs: FuncsView,
    st: RuntimeView,
    e: ExprView,
    fuel: nat,
    extra: Seq<Seq<char>>,
    open: bool,
)
    requires
        st.input_open,
    ensures
        wrote_first(
            eval_expr(funcs, st, e, fuel),
            eval_expr(funcs, with_more_input(st, extra, open), e, fuel),
        ),
    decreases fuel, 0nat, e, 0nat,
{
    let more = with_more_input(st, extra, open);
    match e {
        ExprView::FnCall(name, args) => {
            lemma_eval_call_input_prefix(funcs, st, name, args, fuel, extra, open);
        },
        ExprView::ObjectLiteral(fields) => {
            lemma_eval_fields_input_prefix(funcs, st, fields, 0, Seq::empty(), fuel, extra, open);
        },
        ExprView::ListLiteral(items) => {
            lemma_eval_list_input_prefix(funcs, st, items, 0, Seq::empty(), fuel, extra, open);
        },
        ExprView::Binary(op, left, right) => {
            lemma_eval_expr_input_prefix(funcs, st, *left, fuel, extra, open);
            if !needs_input(eval_expr(funcs, st, *left, fuel)) {
                lemma_eval_expr_more_input(funcs, st, *left, fuel, extra, open);
                lemma_eval_expr_output(funcs, st, *left, fuel);
                match eval_expr(funcs, st, *left, fuel) {
                    (Ok(a), st1) => {
                        lemma_eval_expr_input_prefix(funcs, st1, *right, fuel, extra, open);
                    },
                    _ => {},
                }
            } else {
                match eval_expr(funcs, more, *left, fuel) {
                    (Ok(a), st1) => {
                        lemma_eval_expr_output(funcs, st1, *right, fuel);
                    },
                    _ => {},
                }
            }
        },
        ExprView::Unary(op, operand) => {
            lemma_eval_expr_input_prefix(funcs, st, *operand, fuel, extra, open);
        },
        _ => {},
    }
}

/// What a body writes is the beginning of what it writes with more input.
pub proof fn lemma_exec_body_input_prefix(
    funcs: FuncsView,
    st: RuntimeView,
    body: Seq<StmtView>,
    fuel: nat,
    extra: Seq<Seq<char>>,
    open: bool,
)
    requires
        st.input_open,
    ensures
        wrote_first(
            exec_body(funcs, st, body, fuel),
            exec_body(funcs, with_more_input(st, extra, open), body, fuel),
        ),
    decreases fuel, 1nat, body, body.len() + 1,
{
    let entered = RuntimeView { scopes: st.scopes.push(Seq::empty()), ..st };
    lemma_exec_stmts_input_prefix(funcs, entered, body, 0, fuel, extra, open);
}

/// What statements write is the beginning of what they write with more input.
pub proof fn lemma_exec_stmts_input_prefix(
    funcs: FuncsView,
    st: RuntimeView,
    body: Seq<StmtView>,
    i: nat,
    fuel: nat,
    extra: Seq<Seq<char>>,
    open: bool,
)
    requires
        st.input_open,
    ensures
        wrote_first(
            exec_stmts(funcs, st, body, i, fuel),
            exec_stmts(funcs, with_more_input(st, extra, open), body, i, fuel),
        ),
    decreases fuel, 1nat, body, body.len() - i,
{
    if i < body.len() {
        let more = with_more_input(st, extra, open);
        lemma_exec_stmt_input_prefix(funcs, st, body[i as int], fuel, extra, open);
        if !needs_input(exec_stmt(funcs, st, body[i as int], fuel)) {
            lemma_exec_stmt_more_input(funcs, st, body[i as int], fuel, extra, open);
            lemma_exec_stmt_output(funcs, st, body[i as int], fuel);
            match exec_stmt(funcs, st, body[i as int], fuel) {
                (Ok(FlowView::Fallthrough), st1) => {
                    lemma_exec_stmts_input_prefix(funcs, st1, body, i + 1, fuel, extra, open);
                },
                _ => {},
            }
        } else {
            match exec_stmt(funcs, more, body[i as int], fuel) {
                (Ok(FlowView::Fallthrough), st1) => {
                    lemma_exec_stmts_output(funcs, st1, body, i + 1, fuel);
                },
                _ => {},
            }
        }
    }
}

/// What a statement writes is the beginning of what it writes with more
/// input.
pub proof fn lemma_exec_stmt_input_prefix(
    funcs: FuncsView,
    st: RuntimeView,
    s: StmtView,
    fuel: nat,
    extra: Seq<Seq<char>>,
    open: bool,
)
    requires
        st.input_open,
    ensures
        wrote_first(
            exec_stmt(funcs, st, s, fuel),
            exec_stmt(funcs, with_more_input(st, extra, open), s, fuel),
        ),
    decreases fuel, 1nat, s, 0nat,
{
    let more = with_more_input(st, extra, open);
    match s {
        StmtView::FnCall(name, args) => {
            lemma_eval_call_input_prefix(funcs, st, name, args, fuel, extra, open);
        },
        StmtView::Return(e) => {
            lemma_eval_expr_input_prefix(funcs, st, e, fuel, extra, open);
        },
        StmtView::If(cond, body) => {
            lemma_eval_expr_input_prefix(funcs, st, cond, fuel, extra, open);
            if !needs_input(eval_expr(funcs, st, cond, fuel)) {
                lemma_eval_expr_more_input(funcs, st, cond, fuel, extra, open);
                lemma_eval_expr_output(funcs, st, cond, fuel);
                match eval_expr(funcs, st, cond, fuel) {
                    (Ok(c), st1) => {
                        if as_condition(c) == Ok::<bool, RuntimeErrorView>(true) {
                            lemma_exec_body_input_prefix(funcs, st1, body, fuel, extra, open);
                        }
                    },
                    _ => {},
                }
            } else {
                match eval_expr(funcs, more, cond, fuel) {
                    (Ok(c), st1) => {
                        if as_condition(c) == Ok::<bool, RuntimeErrorView>(true) {
                            lemma_exec_body_output(funcs, st1, body, fuel);
                        }
                    },
                    _ => {},
                }
            }
        },
        StmtView::While(cond, body) => {
            lemma_eval_expr_input_prefix(funcs, st, cond, fuel, extra, open);
            if !needs_input(eval_expr(funcs, st, cond, fuel)) {
                lemma_eval_expr_more_input(funcs, st, cond, fuel, extra, open);
                lemma_eval_expr_output(funcs, st, cond, fuel);
                match eval_expr(funcs, st, cond, fuel) {
                    (Ok(c), st1) => {
                        if as_condition(c) == Ok::<bool, RuntimeErrorView>(true) {
                            lemma_exec_body_input_prefix(funcs, st1, body, fuel, extra, open);
                            if !needs_input(exec_body(funcs, st1, body, fuel)) {
                                lemma_exec_body_more_input(funcs, st1, body, fuel, extra, open);
                                lemma_exec_body_output(funcs, st1, body, fuel);
                                match exec_body(funcs, st1, body, fuel) {
                                    (Ok(FlowView::Fallthrough), st2) => {
                                        if fuel > 0 {
                                            lemma_exec_stmt_input_prefix(
                                                funcs,
                                                st2,
                                                s,
                                                (fuel - 1) as nat,
                                                extra,
                                                open,
                                            );
                                        }
                                    },
                                    _ => {},
                                }
                            } else {
                                match exec_body(
                                    funcs,
                                    with_more_input(st1, extra, open),
                                    body,
                                    fuel,
                                ) {
                                    (Ok(FlowView::Fallthrough), st2) => {
                                        if fuel > 0 {
                                            lemma_exec_stmt_output(
                                                funcs,
                                                st2,
                                                s,
                                                (fuel - 1) as nat,
                                            );
                                        }
                                    },
                                    _ => {},
                                }
                            }
                        }
                    },
                    _ => {},
                }
            } else {
                match eval_expr(funcs, more, cond, fuel) {
                    (Ok(c), st1) => {
                        if as_condition(c) == Ok::<bool, RuntimeErrorView>(true) {
                            lemma_exec_body_output(funcs, st1, body, fuel);
                            match exec_body(funcs, st1, body, fuel) {
                                (Ok(FlowView::Fallthrough), st2) => {
                                    if fuel > 0 {
                                        lemma_exec_stmt_output(funcs, st2, s, (fuel - 1) as nat);
                                    }
                                },
                                _ => {},
                            }
                        }
                    },
                    _ => {},
                }
            }
        },
        StmtView::Assign(name, e) => {
            lemma_eval_expr_input_prefix(funcs, st, e, fuel, extra, open);
        },
        StmtView::Decl(name, e) => {
            lemma_eval_expr_input_prefix(funcs, st, e, fuel, extra, open);
        },
    }
}

/// A run of a program on the lines that are there writes the beginning of
/// what the run on more lines writes.
pub proof fn lemma_run_program_input_prefix(
    funcs: FuncsView,
    st: RuntimeView,
    decls: Seq<DeclView>,
    args: Seq<Seq<char>>,
    fuel: nat,
    extra: Seq<Seq<char>>,
    open: bool,
)
    requires
        st.input_open,
    ensures
        wrote_first(
            run_program(funcs, st, decls, args, fuel),
            run_program(funcs, with_more_input(st, extra, open), decls, args, fuel),
        ),
{
    let table = with_decls(with_builtins(funcs), decls);
    if table.contains_key("main"@) {
        lemma_call_fn_input_prefix(
            table,
            st,
            table["main"@],
            string_values(args),
            fuel,
            extra,
            open,
        );
    }
}

/// A run that neither its budget nor its input stopped is settled: with any
/// larger budget and with any lines of input after those that were there, the
/// program gives the same result and writes the same, and leaves the further
/// lines unread.
pub proof fn lemma_settled_run(
    funcs: FuncsView,
    st: RuntimeView,
    decls: Seq<DeclView>,
    args: Seq<Seq<char>>,
    fuel: nat,
    more: nat,
    extra: Seq<Seq<char>>,
    open: bool,
)
    requires
        st.input_open,
        fuel <= more,
        !needs_input(run_program(funcs, st, decls, args, fuel)),
        !out_of_fuel(run_program(funcs, st, decls, args, fuel)),
    ensures
        did_the_same(
            run_program(funcs, st, decls, args, fuel),
            run_program(funcs, with_more_input(st, extra, open), decls, args, more),
            extra,
            open,
        ),
{
    lemma_run_program_more_input(funcs, st, decls, args, fuel, extra, open);
    lemma_run_program_budget(
        funcs,
        with_more_input(st, extra, open),
        decls,
        args,
        fuel,
        more,
    );
}

} // verus!
