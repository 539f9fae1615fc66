//! The budget does not change what a program means. A run that is not
//! stopped by its budget gives the same result and the same state with any
//! larger one. A run that is stopped by its budget has written the beginning
//! of what the run with a larger one writes. So a stopped run can be run
//! again from the start with more, and what it wrote need not be written
//! again.

use vstd::prelude::*;
use crate::bindings::{put, FieldsView};
use crate::heap::{display_fields, display_items, display_spec, list_at, object_at, HeapView};
use crate::output::{
    lemma_call_fn_output, lemma_eval_expr_output, lemma_eval_fields_output,
    lemma_eval_list_output, lemma_exec_body_output, lemma_exec_stmt_output,
    lemma_exec_stmts_output, wrote_first,
};
use crate::registry::{arity, Builtin, FnObjView, FuncsView};
use crate::semantics::{
    as_condition, bind_params, call_builtin, call_fn, eval_call, eval_expr, eval_fields, eval_list,
    exec_body, exec_stmt, exec_stmts, run_program, string_values, with_builtins, with_decls,
    FlowView, Outcome, RuntimeErrorView, RuntimeView,
};
use crate::syntax::{DeclView, ExprView, StmtView};
use crate::value::ValueView;

verus! {

/// Whether the budget stopped this step of a run.
pub open spec fn out_of_fuel<T>(r: Outcome<T>) -> bool {
    r.0 matches Err(RuntimeErrorView::OutOfFuel)
}

/// A value that has a display form within some depth has the same one within
/// any larger depth.
pub proof fn lemma_display_depth(heap: HeapView, v: ValueView, depth: nat, more: nat)
    requires
        depth <= more,
        display_spec(heap, v, depth) is Some,
    ensures
        display_spec(heap, v, more) == display_spec(heap, v, depth),
    decreases depth, 0nat, 0nat,
{
    match v {
        ValueView::List(h) => match list_at(heap, h) {
            Some(items) => {
                if items.len() > 0 {
                    lemma_display_items_depth(
                        heap,
                        items,
                        0,
                        (depth - 1) as nat,
                        (more - 1) as nat,
                    );
                }
            },
            None => {},
        },
        ValueView::Object(h) => match object_at(heap, h) {
            Some(fields) => {
                if fields.len() > 0 {
                    lemma_display_fields_depth(
                        heap,
                        fields,
                        0,
                        (depth - 1) as nat,
                        (more - 1) as nat,
                    );
                }
            },
            None => {},
        },
        _ => {},
    }
}

/// The items of a list that have a display form within some depth have the
/// same one within any larger depth.
pub proof fn lemma_display_items_depth(
    heap: HeapView,
    items: Seq<ValueView>,
    i: nat,
    depth: nat,
    more: nat,
)
    requires
        depth <= more,
        display_items(heap, items, i, depth) is Some,
    ensures
        display_items(heap, items, i, more) == display_items(heap, items, i, depth),
    decreases depth, 1nat, items.len() - i,
{
    if i < items.len() {
        lemma_display_depth(heap, items[i as int], depth, more);
        lemma_display_items_depth(heap, items, i + 1, depth, more);
    }
}

/// The fields of an object that have a display form within some depth have
/// the same one within any larger depth.
pub proof fn lemma_display_fields_depth(
    heap: HeapView,
    fields: FieldsView,
    i: nat,
    depth: nat,
    more: nat,
)
    requires
        depth <= more,
        display_fields(heap, fields, i, depth) is Some,
    ensures
        display_fields(heap, fields, i, more) == display_fields(heap, fields, i, depth),
    decreases depth, 1nat, fields.len() - i,
{
    if i < fields.len() {
        lemma_display_depth(heap, fields[i as int].1, depth, more);
        lemma_display_fields_depth(heap, fields, i + 1, depth, more);
    }
}

/// A builtin that the budget does not stop does the same with a larger one.
pub proof fn lemma_builtin_budget(
    b: Builtin,
    st: RuntimeView,
    args: Seq<ValueView>,
    fuel: nat,
    more: nat,
)
    requires
        fuel <= more,
        !out_of_fuel(call_builtin(b, st, args, fuel)),
    ensures
        call_builtin(b, st, args, more) == call_builtin(b, st, args, fuel),
{
    if b == Builtin::Print || b == Builtin::ToString {
        lemma_display_depth(st.heap, args[0], fuel, more);
    }
}

/// A call that the budget does not stop gives the same with a larger one.
pub proof fn lemma_call_fn_budget(
    funcs: FuncsView,
    st: RuntimeView,
    f: FnObjView,
    args: Seq<ValueView>,
    fuel: nat,
    more: nat,
)
    requires
        fuel <= more,
        !out_of_fuel(call_fn(funcs, st, f, args, fuel)),
    ensures
        call_fn(funcs, st, f, args, more) == call_fn(funcs, st, f, args, fuel),
    decreases fuel, 2nat, f, 0nat,
{
    if args.len() == arity(f) {
        match f {
            FnObjView::Builtin(b) => {
                lemma_builtin_budget(b, st, args, fuel, more);
            },
            FnObjView::Defined { params, body } => {
                let entered = RuntimeView {
                    scopes: st.scopes.push(bind_params(params, args)),
                    ..st
                };
                lemma_exec_body_budget(funcs, entered, body, fuel, more);
            },
        }
    }
}

/// The evaluation of a call that the budget does not stop gives the same
/// with a larger one.
pub proof fn lemma_eval_call_budget(
    funcs: FuncsView,
    st: RuntimeView,
    name: Seq<char>,
    args: Seq<ExprView>,
    fuel: nat,
    more: nat,
)
    requires
        fuel <= more,
        !out_of_fuel(eval_call(funcs, st, name, args, fuel)),
    ensures
        eval_call(funcs, st, name, args, more) == eval_call(funcs, st, name, args, fuel),
    decreases fuel, 0nat, args, args.len() + 1,
{
    if funcs.contains_key(name) {
        lemma_eval_list_budget(funcs, st, args, 0, Seq::empty(), fuel, more);
        match eval_list(funcs, st, args, 0, Seq::empty(), fuel) {
            (Ok(values), st1) => {
                lemma_call_fn_budget(
                    funcs,
                    st1,
                    funcs[name],
                    values,
                    (fuel - 1) as nat,
                    (more - 1) as nat,
                );
            },
            _ => {},
        }
    }
}

/// The evaluation of a list of expressions that the budget does not stop
/// gives the same with a larger one.
pub proof fn lemma_eval_list_budget(
    funcs: FuncsView,
    st: RuntimeView,
    items: Seq<ExprView>,
    i: nat,
    acc: Seq<ValueView>,
    fuel: nat,
    more: nat,
)
    requires
        fuel <= more,
        !out_of_fuel(eval_list(funcs, st, items, i, acc, fuel)),
    ensures
        eval_list(funcs, st, items, i, acc, more) == eval_list(funcs, st, items, i, acc, fuel),
    decreases fuel, 0nat, items, items.len() - i,
{
    if i < items.len() {
        lemma_eval_expr_budget(funcs, st, items[i as int], fuel, more);
        match eval_expr(funcs, st, items[i as int], fuel) {
            (Ok(v), st1) => {
                lemma_eval_list_budget(funcs, st1, items, i + 1, acc.push(v), fuel, more);
            },
            _ => {},
        }
    }
}

/// The evaluation of the fields of an object literal that the budget does not
/// stop gives the same with a larger one.
pub proof fn lemma_eval_fields_budget(
    funcs: FuncsView,
    st: RuntimeView,
    fields: Seq<(Seq<char>, ExprView)>,
    i: nat,
    acc: FieldsView,
    fuel: nat,
    more: nat,
)
    requires
        fuel <= more,
        !out_of_fuel(eval_fields(funcs, st, fields, i, acc, fuel)),
    ensures
        eval_fields(funcs, st, fields, i, acc, more) == eval_fields(
            funcs,
            st,
            fields,
            i,
            acc,
            fuel,
        ),
    decreases fuel, 0nat, fields, fields.len() - i,
{
    if i < fields.len() {
        lemma_eval_expr_budget(funcs, st, fields[i as int].1, fuel, more);
        match eval_expr(funcs, st, fields[i as int].1, fuel) {
            (Ok(v), st1) => {
                lemma_eval_fields_budget(
                    funcs,
                    st1,
                    fields,
                    i + 1,
                    put(acc, fields[i as int].0, v),
                    fuel,
                    more,
                );
            },
            _ => {},
        }
    }
}

/// The evaluation of an expression that the budget does not stop gives the
/// same value and the same state with a larger one.
pub proof fn lemma_eval_expr_budget(
    funcs: FuncsView,
    st: RuntimeView,
    e: ExprView,
    fuel: nat,
    more: nat,
)
    requires
        fuel <= more,
        !out_of_fuel(eval_expr(funcs, st, e, fuel)),
    ensures
        eval_expr(funcs, st, e, more) == eval_expr(funcs, st, e, fuel),
    decreases fuel, 0nat, e, 0nat,
{
    match e {
        ExprView::FnCall(name, args) => {
            lemma_eval_call_budget(funcs, st, name, args, fuel, more);
        },
        ExprView::ObjectLiteral(fields) => {
            lemma_eval_fields_budget(funcs, st, fields, 0, Seq::empty(), fuel, more);
        },
        ExprView::ListLiteral(items) => {
            lemma_eval_list_budget(funcs, st, items, 0, Seq::empty(), fuel, more);
        },
        ExprView::Binary(op, left, right) => {
            lemma_eval_expr_budget(funcs, st, *left, fuel, more);
            match eval_expr(funcs, st, *left, fuel) {
                (Ok(a), st1) => {
                    lemma_eval_expr_budget(funcs, st1, *right, fuel, more);
                },
                _ => {},
            }
        },
        ExprView::Unary(op, operand) => {
            lemma_eval_expr_budget(funcs, st, *operand, fuel, more);
        },
        _ => {},
    }
}

/// The execution of a body that the budget does not stop gives the same with
/// a larger one.
pub proof fn lemma_exec_body_budget(
    funcs: FuncsView,
    st: RuntimeView,
    body: Seq<StmtView>,
    fuel: nat,
    more: nat,
)
    requires
        fuel <= more,
        !out_of_fuel(exec_body(funcs, st, body, fuel)),
    ensures
        exec_body(funcs, st, body, more) == exec_body(funcs, st, body, fuel),
    decreases fuel, 1nat, body, body.len() + 1,
{
    let entered = RuntimeView { scopes: st.scopes.push(Seq::empty()), ..st };
    lemma_exec_stmts_budget(funcs, entered, body, 0, fuel, more);
}

/// The execution of statements that the budget does not stop gives the same
/// with a larger one.
pub proof fn lemma_exec_stmts_budget(
    funcs: FuncsView,
    st: RuntimeView,
    body: Seq<StmtView>,
    i: nat,
    fuel: nat,
    more: nat,
)
    requires
        fuel <= more,
        !out_of_fuel(exec_stmts(funcs, st, body, i, fuel)),
    ensures
        exec_stmts(funcs, st, body, i, more) == exec_stmts(funcs, st, body, i, fuel),
    decreases fuel, 1nat, body, body.len() - i,
{
    if i < body.len() {
        lemma_exec_stmt_budget(funcs, st, body[i as int], fuel, more);
        match exec_stmt(funcs, st, body[i as int], fuel) {
            (Ok(FlowView::Fallthrough), st1) => {
                lemma_exec_stmts_budget(funcs, st1, body, i + 1, fuel, more);
            },
            _ => {},
        }
    }
}

/// The execution of a statement that the budget does not stop gives the same
/// with a larger one.
pub proof fn lemma_exec_stmt_budget(
    funcs: FuncsView,
    st: RuntimeView,
    s: StmtView,
    fuel: nat,
    more: nat,
)
    requires
        fuel <= more,
        !out_of_fuel(exec_stmt(funcs, st, s, fuel)),
    ensures
        exec_stmt(funcs, st, s, more) == exec_stmt(funcs, st, s, fuel),
    decreases fuel, 1nat, s, 0nat,
{
    match s {
        StmtView::FnCall(name, args) => {
            lemma_eval_call_budget(funcs, st, name, args, fuel, more);
        },
        StmtView::Return(e) => {
            lemma_eval_expr_budget(funcs, st, e, fuel, more);
        },
        StmtView::If(cond, body) => {
            lemma_eval_expr_budget(funcs, st, cond, fuel, more);
            match eval_expr(funcs, st, cond, fuel) {
                (Ok(c), st1) => {
                    if as_condition(c) == Ok::<bool, RuntimeErrorView>(true) {
                        lemma_exec_body_budget(funcs, st1, body, fuel, more);
                    }
                },
                _ => {},
            }
        },
        StmtView::While(cond, body) => {
            lemma_eval_expr_budget(funcs, st, cond, fuel, more);
            match eval_expr(funcs, st, cond, fuel) {
                (Ok(c), st1) => {
                    if as_condition(c) == Ok::<bool, RuntimeErrorView>(true) {
                        lemma_exec_body_budget(funcs, st1, body, fuel, more);
                        match exec_body(funcs, st1, body, fuel) {
                            (Ok(FlowView::Fallthrough), st2) => {
                                lemma_exec_stmt_budget(
                                    funcs,
                                    st2,
                                    s,
                                    (fuel - 1) as nat,
                                    (more - 1) as nat,
                                );
                            },
                            _ => {},
                        }
                    }
                },
                _ => {},
            }
        },
        StmtView::Assign(name, e) => {
            lemma_eval_expr_budget(funcs, st, e, fuel, more);
        },
        StmtView::Decl(name, e) => {
            lemma_eval_expr_budget(funcs, st, e, fuel, more);
        },
    }
}

/// A run of a program that its budget does not stop gives the same result,
/// the same output and the same state with any larger budget.
pub proof fn lemma_run_program_budget(
    funcs: FuncsView,
    st: RuntimeView,
    decls: Seq<DeclView>,
    args: Seq<Seq<char>>,
    fuel: nat,
    more: nat,
)
    requires
        fuel <= more,
        !out_of_fuel(run_program(funcs, st, decls, args, fuel)),
    ensures
        run_program(funcs, st, decls, args, more) == run_program(funcs, st, decls, args, fuel),
{
    let table = with_decls(with_builtins(funcs), decls);
    if table.contains_key("main"@) {
        lemma_call_fn_budget(table, st, table["main"@], string_values(args), fuel, more);
    }
}

/// What a builtin writes within a budget is the beginning of what it writes
/// within a larger one.
pub proof fn lemma_builtin_prefix(
    b: Builtin,
    st: RuntimeView,
    args: Seq<ValueView>,
    fuel: nat,
    more: nat,
)
    requires
        fuel <= more,
    ensures
        wrote_first(call_builtin(b, st, args, fuel), call_builtin(b, st, args, more)),
{
    if !out_of_fuel(call_builtin(b, st, args, fuel)) {
        lemma_builtin_budget(b, st, args, fuel, more);
    }
}

/// What a call writes within a budget is the beginning of what it writes
/// within a larger one.
pub proof fn lemma_call_fn_prefix(
    funcs: FuncsView,
    st: RuntimeView,
    f: FnObjView,
    args: Seq<ValueView>,
    fuel: nat,
    more: nat,
)
    requires
        fuel <= more,
    ensures
        wrote_first(call_fn(funcs, st, f, args, fuel), call_fn(funcs, st, f, args, more)),
    decreases fuel, 2nat, f, 0nat,
{
    if args.len() == arity(f) {
        match f {
            FnObjView::Builtin(b) => {
                lemma_builtin_prefix(b, st, args, fuel, more);
            },
            FnObjView::Defined { params, body } => {
                let entered = RuntimeView {
                    scopes: st.scopes.push(bind_params(params, args)),
                    ..st
                };
                lemma_exec_body_prefix(funcs, entered, body, fuel, more);
            },
        }
    }
}

/// What the evaluation of a call writes within a budget is the beginning of
/// what it writes within a larger one.
pub proof fn lemma_eval_call_prefix(
    funcs: FuncsView,
    st: RuntimeView,
    name: Seq<char>,
    args: Seq<ExprView>,
    fuel: nat,
    more: nat,
)
    requires
        fuel <= more,
    ensures
        wrote_first(
            eval_call(funcs, st, name, args, fuel),
            eval_call(funcs, st, name, args, more),
        ),
    decreases fuel, 0nat, args, args.len() + 1,
{
    if funcs.contains_key(name) {
        lemma_eval_list_prefix(funcs, st, args, 0, Seq::empty(), fuel, more);
        if !out_of_fuel(eval_list(funcs, st, args, 0, Seq::empty(), fuel)) {
            lemma_eval_list_budget(funcs, st, args, 0, Seq::empty(), fuel, more);
            match eval_list(funcs, st, args, 0, Seq::empty(), fuel) {
                (Ok(values), st1) => {
                    if fuel > 0 {
                        lemma_call_fn_prefix(
                            funcs,
                            st1,
                            funcs[name],
                            values,
                            (fuel - 1) as nat,
                            (more - 1) as nat,
                        );
                    } else if more > 0 {
                        lemma_call_fn_output(funcs, st1, funcs[name], values, (more - 1) as nat);
                    }
                },
                _ => {},
            }
        } else {
            match eval_list(funcs, st, args, 0, Seq::empty(), more) {
                (Ok(values), st1) => {
                    if more > 0 {
                        lemma_call_fn_output(funcs, st1, funcs[name], values, (more - 1) as nat);
                    }
                },
                _ => {},
            }
        }
    }
}

/// What the evaluation of a list of expressions writes within a budget is the
/// beginning of what it writes within a larger one.
pub proof fn lemma_eval_list_prefix(
    funcs: FuncsView,
    st: RuntimeView,
    items: Seq<ExprView>,
    i: nat,
    acc: Seq<ValueView>,
    fuel: nat,
    more: nat,
)
    requires
        fuel <= more,
    ensures
        wrote_first(
            eval_list(funcs, st, items, i, acc, fuel),
            eval_list(funcs, st, items, i, acc, more),
        ),
    decreases fuel, 0nat, items, items.len() - i,
{
    if i < items.len() {
        lemma_eval_expr_prefix(funcs, st, items[i as int], fuel, more);
        if !out_of_fuel(eval_expr(funcs, st, items[i as int], fuel)) {
            lemma_eval_expr_budget(funcs, st, items[i as int], fuel, more);
            match eval_expr(funcs, st, items[i as int], fuel) {
                (Ok(v), st1) => {
                    lemma_eval_list_prefix(funcs, st1, items, i + 1, acc.push(v), fuel, more);
                },
                _ => {},
            }
        } else {
            match eval_expr(funcs, st, items[i as int], more) {
                (Ok(v), st1) => {
                    lemma_eval_list_output(funcs, st1, items, i + 1, acc.push(v), more);
                },
                _ => {},
            }
        }
    }
}

/// What the evaluation of the fields of an object literal writes within a
/// budget is the beginning of what it writes within a larger one.
pub proof fn lemma_eval_fields_prefix(
    funcs: FuncsView,
    st: RuntimeView,
    fields: Seq<(Seq<char>, ExprView)>,
    i: nat,
    acc: FieldsView,
    fuel: nat,
    more: nat,
)
    requires
        fuel <= more,
    ensures
        wrote_first(
            eval_fields(funcs, st, fields, i, acc, fuel),
            eval_fields(funcs, st, fields, i, acc, more),
        ),
    decreases fuel, 0nat, fields, fields.len() - i,
{
    if i < fields.len() {
        let name = fields[i as int].0;
        lemma_eval_expr_prefix(funcs, st, fields[i as int].1, fuel, more);
        if !out_of_fuel(eval_expr(funcs, st, fields[i as int].1, fuel)) {
            lemma_eval_expr_budget(funcs, st, fields[i as int].1, fuel, more);
            match eval_expr(funcs, st, fields[i as int].1, fuel) {
                (Ok(v), st1) => {
                    lemma_eval_fields_prefix(
                        funcs,
                        st1,
                        fields,
                        i + 1,
                        put(acc, name, v),
                        fuel,
                        more,
                    );
                },
                _ => {},
            }
        } else {
            match eval_expr(funcs, st, fields[i as int].1, more) {
                (Ok(v), st1) => {
                    lemma_eval_fields_output(
                        funcs,
                        st1,
                        fields,
                        i + 1,
                        put(acc, name, v),
                        more,
                    );
                },
                _ => {},
            }
        }
    }
}

/// What the evaluation of an expression writes within a budget is the
/// beginning of what it writes within a larger one.
pub proof fn lemma_eval_expr_prefix(
    funcs: FuncsView,
    st: RuntimeView,
    e: ExprView,
    fuel: nat,
    more: nat,
)
    requires
        fuel <= more,
    ensures
        wrote_first(eval_expr(funcs, st, e, fuel), eval_expr(funcs, st, e, more)),
    decreases fuel, 0nat, e, 0nat,
{
    match e {
        ExprView::FnCall(name, args) => {
            lemma_eval_call_prefix(funcs, st, name, args, fuel, more);
        },
        ExprView::ObjectLiteral(fields) => {
            lemma_eval_fields_prefix(funcs, st, fields, 0, Seq::empty(), fuel, more);
        },
        ExprView::ListLiteral(items) => {
            lemma_eval_list_prefix(funcs, st, items, 0, Seq::empty(), fuel, more);
        },
        ExprView::Binary(op, left, right) => {
            lemma_eval_expr_prefix(funcs, st, *left, fuel, more);
            if !out_of_fuel(eval_expr(funcs, st, *left, fuel)) {
                lemma_eval_expr_budget(funcs, st, *left, fuel, more);
                match eval_expr(funcs, st, *left, fuel) {
                    (Ok(a), st1) => {
                        lemma_eval_expr_prefix(funcs, st1, *right, fuel, more);
                    },
                    _ => {},
                }
            } else {
                match eval_expr(funcs, st, *left, more) {
                    (Ok(a), st1) => {
                        lemma_eval_expr_output(funcs, st1, *right, more);
                    },
                    _ => {},
                }
            }
        },
        ExprView::Unary(op, operand) => {
            lemma_eval_expr_prefix(funcs, st, *operand, fuel, more);
        },
        _ => {},
    }
}

/// What a body writes within a budget is the beginning of what it writes
/// within a larger one.
pub proof fn lemma_exec_body_prefix(
    funcs: FuncsView,
    st: RuntimeView,
    body: Seq<StmtView>,
    fuel: nat,
    more: nat,
)
    requires
        fuel <= more,
    ensures
        wrote_first(exec_body(funcs, st, body, fuel), exec_body(funcs, st, body, more)),
    decreases fuel, 1nat, body, body.len() + 1,
{
    let entered = RuntimeView { scopes: st.scopes.push(Seq::empty()), ..st };
    lemma_exec_stmts_prefix(funcs, entered, body, 0, fuel, more);
}

/// What statements write within a budget is the beginning of what they write
/// within a larger one.
pub proof fn lemma_exec_stmts_prefix(
    funcs: FuncsView,
    st: RuntimeView,
    body: Seq<StmtView>,
    i: nat,
    fuel: nat,
    more: nat,
)
    requires
        fuel <= more,
    ensures
        wrote_first(exec_stmts(funcs, st, body, i, fuel), exec_stmts(funcs, st, body, i, more)),
    decreases fuel, 1nat, body, body.len() - i,
{
    if i < body.len() {
        lemma_exec_stmt_prefix(funcs, st, body[i as int], fuel, more);
        if !out_of_fuel(exec_stmt(funcs, st, body[i as int], fuel)) {
            lemma_exec_stmt_budget(funcs, st, body[i as int], fuel, more);
            match exec_stmt(funcs, st, body[i as int], fuel) {
                (Ok(FlowView::Fallthrough), st1) => {
                    lemma_exec_stmts_prefix(funcs, st1, body, i + 1, fuel, more);
                },
                _ => {},
            }
        } else {
            match exec_stmt(funcs, st, body[i as int], more) {
                (Ok(FlowView::Fallthrough), st1) => {
                    lemma_exec_stmts_output(funcs, st1, body, i + 1, more);
                },
                _ => {},
            }
        }
    }
}

/// What a statement writes within a budget is the beginning of what it
/// writes within a larger one.
pub proof fn lemma_exec_stmt_prefix(
    funcs: FuncsView,
    st: RuntimeView,
    s: StmtView,
    fuel: nat,
    more: nat,
)
    requires
        fuel <= more,
    ensures
        wrote_first(exec_stmt(funcs, st, s, fuel), exec_stmt(funcs, st, s, more)),
    decreases fuel, 1nat, s, 0nat,
{
    match s {
        StmtView::FnCall(name, args) => {
            lemma_eval_call_prefix(funcs, st, name, args, fuel, more);
        },
        StmtView::Return(e) => {
            lemma_eval_expr_prefix(funcs, st, e, fuel, more);
        },
        StmtView::If(cond, body) => {
            lemma_eval_expr_prefix(funcs, st, cond, fuel, more);
            if !out_of_fuel(eval_expr(funcs, st, cond, fuel)) {
                lemma_eval_expr_budget(funcs, st, cond, fuel, more);
                match eval_expr(funcs, st, cond, fuel) {
                    (Ok(c), st1) => {
                        if as_condition(c) == Ok::<bool, RuntimeErrorView>(true) {
                            lemma_exec_body_prefix(funcs, st1, body, fuel, more);
                        }
                    },
                    _ => {},
                }
            } else {
                match eval_expr(funcs, st, cond, more) {
                    (Ok(c), st1) => {
                        if as_condition(c) == Ok::<bool, RuntimeErrorView>(true) {
                            lemma_exec_body_output(funcs, st1, body, more);
                        }
                    },
                    _ => {},
                }
            }
        },
        StmtView::While(cond, body) => {
            lemma_eval_expr_prefix(funcs, st, cond, fuel, more);
            if !out_of_fuel(eval_expr(funcs, st, cond, fuel)) {
                lemma_eval_expr_budget(funcs, st, cond, fuel, more);
                match eval_expr(funcs, st, cond, fuel) {
                    (Ok(c), st1) => {
                        if as_condition(c) == Ok::<bool, RuntimeErrorView>(true) {
                            lemma_exec_body_prefix(funcs, st1, body, fuel, more);
                            if !out_of_fuel(exec_body(funcs, st1, body, fuel)) {
                                lemma_exec_body_budget(funcs, st1, body, fuel, more);
                                match exec_body(funcs, st1, body, fuel) {
                                    (Ok(FlowView::Fallthrough), st2) => {
                                        if fuel > 0 {
                                            lemma_exec_stmt_prefix(
                                                funcs,
                                                st2,
                                                s,
                                                (fuel - 1) as nat,
                                                (more - 1) as nat,
                                            );
                                        } else if more > 0 {
                                            lemma_exec_stmt_output(
                                                funcs,
                                                st2,
                                                s,
                                                (more - 1) as nat,
                                            );
                                        }
                                    },
                                    _ => {},
                                }
                            } else {
                                match exec_body(funcs, st1, body, more) {
                                    (Ok(FlowView::Fallthrough), st2) => {
                                        if more > 0 {
                                            lemma_exec_stmt_output(
                                                funcs,
                                                st2,
                                                s,
                                                (more - 1) as nat,
                                            );
                                        }
                                    },
                                    _ => {},
                                }
                            }
                        }
                    },
                    _ => {},
                }
            } else {
                match eval_expr(funcs, st, cond, more) {
                    (Ok(c), st1) => {
                        if as_condition(c) == Ok::<bool, RuntimeErrorView>(true) {
                            lemma_exec_body_output(funcs, st1, body, more);
                            match exec_body(funcs, st1, body, more) {
                                (Ok(FlowView::Fallthrough), st2) => {
                                    if more > 0 {
                                        lemma_exec_stmt_output(funcs, st2, s, (more - 1) as nat);
                                    }
                                },
                                _ => {},
                            }
                        }
                    },
                    _ => {},
                }
            }
        },
        StmtView::Assign(name, e) => {
            lemma_eval_expr_prefix(funcs, st, e, fuel, more);
        },
        StmtView::Decl(name, e) => {
            lemma_eval_expr_prefix(funcs, st, e, fuel, more);
        },
    }
}

/// A run of a program within a budget writes the beginning of what the run
/// within a larger budget writes.
pub proof fn lemma_run_program_prefix(
    funcs: FuncsView,
    st: RuntimeView,
    decls: Seq<DeclView>,
    args: Seq<Seq<char>>,
    fuel: nat,
    more: nat,
)
    requires
        fuel <= more,
    ensures
        wrote_first(
            run_program(funcs, st, decls, args, fuel),
            run_program(funcs, st, decls, args, more),
        ),
{
    let table = with_decls(with_builtins(funcs), decls);
    if table.contains_key("main"@) {
        lemma_call_fn_prefix(table, st, table["main"@], string_values(args), fuel, more);
    }
}

} // verus!
