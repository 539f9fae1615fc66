//! Frames are balanced: a step of a run that succeeds leaves as many frames
//! as it found, and one that fails leaves no fewer. So a call and a body
//! remove exactly the frame that they pushed, on every way out, and the
//! variables of a block are out of reach when the block is done.

use vstd::prelude::*;
use crate::bindings::{lemma_position, lemma_position_same_keys, position, put, FieldsView};
use crate::registry::{arity, Builtin, FnObjView, FuncsView};
use crate::scope::{assign, resolve, ScopesView};
use crate::semantics::{
    as_condition, bind_params, call_builtin, call_fn, eval_call, eval_expr, eval_fields, eval_list,
    exec_body, exec_stmt, exec_stmts, FlowView, Outcome, RuntimeErrorView, RuntimeView,
};
use crate::syntax::{ExprView, StmtView};
use crate::value::ValueView;

verus! {

/// Whether a step from `before` kept the frames balanced.
pub open spec fn balanced<T>(before: RuntimeView, r: Outcome<T>) -> bool {
    &&& r.1.scopes.len() >= before.scopes.len()
    &&& r.0 is Ok ==> r.1.scopes.len() == before.scopes.len()
}

/// The state with `frame` as one more frame, the innermost.
pub open spec fn entered(st: RuntimeView, frame: FieldsView) -> RuntimeView {
    RuntimeView { scopes: st.scopes.push(frame), ..st }
}

/// Assigning to a variable keeps the number of frames.
pub proof fn lemma_assign_keeps_frames(scopes: ScopesView, key: Seq<char>, v: ValueView)
    ensures
        assign(scopes, key, v) matches Some(after) ==> after.len() == scopes.len(),
    decreases scopes.len(),
{
    if scopes.len() > 0 {
        lemma_assign_keeps_frames(scopes.drop_last(), key, v);
    }
}

/// A builtin does not touch the frames.
pub proof fn lemma_builtin_frames(b: Builtin, st: RuntimeView, args: Seq<ValueView>, fuel: nat)
    ensures
        call_builtin(b, st, args, fuel).1.scopes == st.scopes,
{
}

/// A call keeps the frames balanced: the frame of the parameters is gone
/// when the call is done, however it ended. Removing the frame never fails:
/// a call whose body succeeds, succeeds.
pub proof fn lemma_call_fn_frames(
    funcs: FuncsView,
    st: RuntimeView,
    f: FnObjView,
    args: Seq<ValueView>,
    fuel: nat,
)
    ensures
        balanced(st, call_fn(funcs, st, f, args, fuel)),
        f is Defined && args.len() == f->params.len() && exec_body(
            funcs,
            entered(st, bind_params(f->params, args)),
            f->body,
            fuel,
        ).0 is Ok ==> call_fn(funcs, st, f, args, fuel).0 is Ok,
    decreases fuel, 2nat, f, 0nat,
{
    if args.len() == arity(f) {
        match f {
            FnObjView::Builtin(b) => {
                lemma_builtin_frames(b, st, args, fuel);
            },
            FnObjView::Defined { params, body } => {
                let entered = RuntimeView {
                    scopes: st.scopes.push(bind_params(params, args)),
                    ..st
                };
                lemma_exec_body_frames(funcs, entered, body, fuel);
            },
        }
    }
}

/// The evaluation of a call keeps the frames balanced.
pub proof fn lemma_eval_call_frames(
    funcs: FuncsView,
    st: RuntimeView,
    name: Seq<char>,
    args: Seq<ExprView>,
    fuel: nat,
)
    ensures
        balanced(st, eval_call(funcs, st, name, args, fuel)),
    decreases fuel, 0nat, args, args.len() + 1,
{
    if funcs.contains_key(name) {
        lemma_eval_list_frames(funcs, st, args, 0, Seq::empty(), fuel);
        match eval_list(funcs, st, args, 0, Seq::empty(), fuel) {
            (Ok(values), st1) => {
                if fuel > 0 {
                    lemma_call_fn_frames(funcs, st1, funcs[name], values, (fuel - 1) as nat);
                }
            },
            _ => {},
        }
    }
}

/// The evaluation of a list of expressions keeps the frames balanced.
pub proof fn lemma_eval_list_frames(
    funcs: FuncsView,
    st: RuntimeView,
    items: Seq<ExprView>,
    i: nat,
    acc: Seq<ValueView>,
    fuel: nat,
)
    ensures
        balanced(st, eval_list(funcs, st, items, i, acc, fuel)),
    decreases fuel, 0nat, items, items.len() - i,
{
    if i < items.len() {
        lemma_eval_expr_frames(funcs, st, items[i as int], fuel);
        match eval_expr(funcs, st, items[i as int], fuel) {
            (Ok(v), st1) => {
                lemma_eval_list_frames(funcs, st1, items, i + 1, acc.push(v), fuel);
            },
            _ => {},
        }
    }
}

/// The evaluation of the fields of an object literal keeps the frames
/// balanced.
pub proof fn lemma_eval_fields_frames(
    funcs: FuncsView,
    st: RuntimeView,
    fields: Seq<(Seq<char>, ExprView)>,
    i: nat,
    acc: FieldsView,
    fuel: nat,
)
    ensures
        balanced(st, eval_fields(funcs, st, fields, i, acc, fuel)),
    decreases fuel, 0nat, fields, fields.len() - i,
{
    if i < fields.len() {
        lemma_eval_expr_frames(funcs, st, fields[i as int].1, fuel);
        match eval_expr(funcs, st, fields[i as int].1, fuel) {
            (Ok(v), st1) => {
                lemma_eval_fields_frames(
                    funcs,
                    st1,
                    fields,
                    i + 1,
                    put(acc, fields[i as int].0, v),
                    fuel,
                );
            },
            _ => {},
        }
    }
}

/// The evaluation of an expression keeps the frames balanced.
pub proof fn lemma_eval_expr_frames(funcs: FuncsView, st: RuntimeView, e: ExprView, fuel: nat)
    ensures
        balanced(st, eval_expr(funcs, st, e, fuel)),
    decreases fuel, 0nat, e, 0nat,
{
    match e {
        ExprView::FnCall(name, args) => {
            lemma_eval_call_frames(funcs, st, name, args, fuel);
        },
        ExprView::ObjectLiteral(fields) => {
            lemma_eval_fields_frames(funcs, st, fields, 0, Seq::empty(), fuel);
        },
        ExprView::ListLiteral(items) => {
            lemma_eval_list_frames(funcs, st, items, 0, Seq::empty(), fuel);
        },
        ExprView::Binary(op, left, right) => {
            lemma_eval_expr_frames(funcs, st, *left, fuel);
            match eval_expr(funcs, st, *left, fuel) {
                (Ok(a), st1) => {
                    lemma_eval_expr_frames(funcs, st1, *right, fuel);
                },
                _ => {},
            }
        },
        ExprView::Unary(op, operand) => {
            lemma_eval_expr_frames(funcs, st, *operand, fuel);
        },
        _ => {},
    }
}

/// A body keeps the frames balanced: its frame is gone when it is done,
/// whether it reached its end or returned. Removing the frame never fails:
/// a body whose statements succeed, succeeds.
pub proof fn lemma_exec_body_frames(
    funcs: FuncsView,
    st: RuntimeView,
    body: Seq<StmtView>,
    fuel: nat,
)
    ensures
        balanced(st, exec_body(funcs, st, body, fuel)),
        exec_stmts(funcs, entered(st, Seq::empty()), body, 0, fuel).0 is Ok ==> exec_body(
            funcs,
            st,
            body,
            fuel,
        ).0 is Ok,
    decreases fuel, 1nat, body, body.len() + 1,
{
    let entered = RuntimeView { scopes: st.scopes.push(Seq::empty()), ..st };
    lemma_exec_stmts_frames(funcs, entered, body, 0, fuel);
}

/// Statements keep the frames balanced.
pub proof fn lemma_exec_stmts_frames(
    funcs: FuncsView,
    st: RuntimeView,
    body: Seq<StmtView>,
    i: nat,
    fuel: nat,
)
    ensures
        balanced(st, exec_stmts(funcs, st, body, i, fuel)),
    decreases fuel, 1nat, body, body.len() - i,
{
    if i < body.len() {
        lemma_exec_stmt_frames(funcs, st, body[i as int], fuel);
        match exec_stmt(funcs, st, body[i as int], fuel) {
            (Ok(FlowView::Fallthrough), st1) => {
                lemma_exec_stmts_frames(funcs, st1, body, i + 1, fuel);
            },
            _ => {},
        }
    }
}

/// A statement keeps the frames balanced.
pub proof fn lemma_exec_stmt_frames(funcs: FuncsView, st: RuntimeView, s: StmtView, fuel: nat)
    ensures
        balanced(st, exec_stmt(funcs, st, s, fuel)),
    decreases fuel, 1nat, s, 0nat,
{
    match s {
        StmtView::FnCall(name, args) => {
            lemma_eval_call_frames(funcs, st, name, args, fuel);
        },
        StmtView::Return(e) => {
            lemma_eval_expr_frames(funcs, st, e, fuel);
        },
        StmtView::If(cond, body) => {
            lemma_eval_expr_frames(funcs, st, cond, fuel);
            match eval_expr(funcs, st, cond, fuel) {
                (Ok(c), st1) => {
                    if as_condition(c) == Ok::<bool, RuntimeErrorView>(true) {
                        lemma_exec_body_frames(funcs, st1, body, fuel);
                    }
                },
                _ => {},
            }
        },
        StmtView::While(cond, body) => {
            lemma_eval_expr_frames(funcs, st, cond, fuel);
            match eval_expr(funcs, st, cond, fuel) {
                (Ok(c), st1) => {
                    if as_condition(c) == Ok::<bool, RuntimeErrorView>(true) {
                        lemma_exec_body_frames(funcs, st1, body, fuel);
                        match exec_body(funcs, st1, body, fuel) {
                            (Ok(FlowView::Fallthrough), st2) => {
                                if fuel > 0 {
                                    lemma_exec_stmt_frames(funcs, st2, s, (fuel - 1) as nat);
                                }
                            },
                            _ => {},
                        }
                    }
                },
                _ => {},
            }
        },
        StmtView::Assign(name, e) => {
            lemma_eval_expr_frames(funcs, st, e, fuel);
            match eval_expr(funcs, st, e, fuel) {
                (Ok(v), st1) => {
                    lemma_assign_keeps_frames(st1.scopes, name, v);
                },
                _ => {},
            }
        },
        StmtView::Decl(name, e) => {
            lemma_eval_expr_frames(funcs, st, e, fuel);
        },
    }
}

/// The names that a frame binds, in order.
pub open spec fn names(frame: FieldsView) -> Seq<Seq<char>> {
    Seq::new(frame.len(), |i: int| frame[i].0)
}

/// Whether two scope chains have as many frames and bind the same names in
/// each of them.
pub open spec fn same_names(before: ScopesView, after: ScopesView) -> bool {
    &&& after.len() == before.len()
    &&& forall|i: int| 0 <= i < before.len() ==> names(#[trigger] after[i]) == names(before[i])
}

/// Whether `after` binds the names of `before` and no others, but for new
/// names at the end of the innermost frame.
pub open spec fn more_names(before: ScopesView, after: ScopesView) -> bool {
    &&& after.len() == before.len()
    &&& forall|i: int|
        0 <= i < before.len() - 1 ==> names(#[trigger] after[i]) == names(before[i])
    &&& before.len() > 0 ==> names(before.last()).is_prefix_of(names(after.last()))
}

/// Binding a name keeps the names that were bound, in their places, and adds
/// at most the new one at the end.
pub proof fn lemma_put_names(f: FieldsView, key: Seq<char>, v: ValueView)
    ensures
        names(f).is_prefix_of(names(put(f, key, v))),
        position(f, key) is Some ==> names(put(f, key, v)) == names(f),
{
    lemma_position(f, key);
    match position(f, key) {
        Some(i) => {
            assert(names(put(f, key, v)) =~= names(f));
        },
        None => {
            assert(names(put(f, key, v)) =~= names(f).push(key));
        },
    }
}

/// Assigning to a variable changes no name.
pub proof fn lemma_assign_names(scopes: ScopesView, key: Seq<char>, v: ValueView)
    ensures
        assign(scopes, key, v) matches Some(after) ==> same_names(scopes, after),
    decreases scopes.len(),
{
    if scopes.len() > 0 {
        if position(scopes.last(), key) is Some {
            lemma_put_names(scopes.last(), key, v);
        } else {
            lemma_assign_names(scopes.drop_last(), key, v);
            match assign(scopes.drop_last(), key, v) {
                Some(rest) => {
                    let after = rest.push(scopes.last());
                    assert forall|i: int| 0 <= i < scopes.len() implies names(#[trigger] after[i])
                        == names(scopes[i]) by {
                        if i < scopes.len() - 1 {
                            assert(after[i] == rest[i]);
                            assert(scopes[i] == scopes.drop_last()[i]);
                        }
                    }
                },
                None => {},
            }
        }
    }
}

/// Which names resolve depends on the names of the frames only.
pub proof fn lemma_same_names_resolve(before: ScopesView, after: ScopesView, key: Seq<char>)
    requires
        same_names(before, after),
    ensures
        resolve(after, key) is Some <==> resolve(before, key) is Some,
    decreases before.len(),
{
    if before.len() > 0 {
        let f = before.last();
        let g = after.last();
        assert(names(g) == names(f));
        assert forall|j: int| 0 <= j < f.len() implies (#[trigger] f[j]).0 == (#[trigger] g[j]).0
        by {
            assert(names(f)[j] == names(g)[j]);
        }
        assert(f.len() == names(f).len() && g.len() == names(g).len());
        lemma_position_same_keys(f, g, key);
        assert forall|i: int| 0 <= i < before.len() - 1 implies names(
            #[trigger] after.drop_last()[i],
        ) == names(before.drop_last()[i]) by {
            assert(after.drop_last()[i] == after[i]);
            assert(before.drop_last()[i] == before[i]);
        }
        lemma_same_names_resolve(before.drop_last(), after.drop_last(), key);
    }
}

/// A call that succeeds changes no name of any frame.
pub proof fn lemma_call_fn_names(
    funcs: FuncsView,
    st: RuntimeView,
    f: FnObjView,
    args: Seq<ValueView>,
    fuel: nat,
)
    ensures
        call_fn(funcs, st, f, args, fuel).0 is Ok ==> same_names(
            st.scopes,
            call_fn(funcs, st, f, args, fuel).1.scopes,
        ),
    decreases fuel, 2nat, f, 0nat,
{
    if args.len() == arity(f) {
        match f {
            FnObjView::Builtin(b) => {
                lemma_builtin_frames(b, st, args, fuel);
            },
            FnObjView::Defined { params, body } => {
                let entered = RuntimeView {
                    scopes: st.scopes.push(bind_params(params, args)),
                    ..st
                };
                lemma_exec_body_names(funcs, entered, body, fuel);
                let after = exec_body(funcs, entered, body, fuel).1;
                if exec_body(funcs, entered, body, fuel).0 is Ok {
                    lemma_dropped_names(st.scopes, bind_params(params, args), after.scopes);
                }
            },
        }
    }
}

/// If the chain with one more frame keeps its names, so does the chain
/// without it.
pub proof fn lemma_dropped_names(scopes: ScopesView, frame: FieldsView, after: ScopesView)
    requires
        same_names(scopes.push(frame), after) || more_names(scopes.push(frame), after),
    ensures
        same_names(scopes, after.drop_last()),
{
    let pushed = scopes.push(frame);
    assert forall|i: int| 0 <= i < scopes.len() implies names(#[trigger] after.drop_last()[i])
        == names(scopes[i]) by {
        assert(after.drop_last()[i] == after[i]);
        assert(pushed[i] == scopes[i]);
    }
}

/// The evaluation of a call that succeeds changes no name of any frame.
pub proof fn lemma_eval_call_names(
    funcs: FuncsView,
    st: RuntimeView,
    name: Seq<char>,
    args: Seq<ExprView>,
    fuel: nat,
)
    ensures
        eval_call(funcs, st, name, args, fuel).0 is Ok ==> same_names(
            st.scopes,
            eval_call(funcs, st, name, args, fuel).1.scopes,
        ),
    decreases fuel, 0nat, args, args.len() + 1,
{
    if funcs.contains_key(name) {
        lemma_eval_list_names(funcs, st, args, 0, Seq::empty(), fuel);
        match eval_list(funcs, st, args, 0, Seq::empty(), fuel) {
            (Ok(values), st1) => {
                if fuel > 0 {
                    lemma_call_fn_names(funcs, st1, funcs[name], values, (fuel - 1) as nat);
                }
            },
            _ => {},
        }
    }
}

/// The evaluation of a list of expressions that succeeds changes no name of
/// any frame.
pub proof fn lemma_eval_list_names(
    funcs: FuncsView,
    st: RuntimeView,
    items: Seq<ExprView>,
    i: nat,
    acc: Seq<ValueView>,
    fuel: nat,
)
    ensures
        eval_list(funcs, st, items, i, acc, fuel).0 is Ok ==> same_names(
            st.scopes,
            eval_list(funcs, st, items, i, acc, fuel).1.scopes,
        ),
    decreases fuel, 0nat, items, items.len() - i,
{
    if i < items.len() {
        lemma_eval_expr_names(funcs, st, items[i as int], fuel);
        match eval_expr(funcs, st, items[i as int], fuel) {
            (Ok(v), st1) => {
                lemma_eval_list_names(funcs, st1, items, i + 1, acc.push(v), fuel);
            },
            _ => {},
        }
    }
}

/// The evaluation of the fields of an object literal that succeeds changes no
/// name of any frame.
pub proof fn lemma_eval_fields_names(
    funcs: FuncsView,
    st: RuntimeView,
    fields: Seq<(Seq<char>, ExprView)>,
    i: nat,
    acc: FieldsView,
    fuel: nat,
)
    ensures
        eval_fields(funcs, st, fields, i, acc, fuel).0 is Ok ==> same_names(
            st.scopes,
            eval_fields(funcs, st, fields, i, acc, fuel).1.scopes,
        ),
    decreases fuel, 0nat, fields, fields.len() - i,
{
    if i < fields.len() {
        lemma_eval_expr_names(funcs, st, fields[i as int].1, fuel);
        match eval_expr(funcs, st, fields[i as int].1, fuel) {
            (Ok(v), st1) => {
                lemma_eval_fields_names(
                    funcs,
                    st1,
                    fields,
                    i + 1,
                    put(acc, fields[i as int].0, v),
                    fuel,
                );
            },
            _ => {},
        }
    }
}

/// The evaluation of an expression that succeeds changes no name of any
/// frame: an expression declares nothing, and what the functions that it
/// calls declare is gone when they return.
pub proof fn lemma_eval_expr_names(funcs: FuncsView, st: RuntimeView, e: ExprView, fuel: nat)
    ensures
        eval_expr(funcs, st, e, fuel).0 is Ok ==> same_names(
            st.scopes,
            eval_expr(funcs, st, e, fuel).1.scopes,
        ),
    decreases fuel, 0nat, e, 0nat,
{
    match e {
        ExprView::FnCall(name, args) => {
            lemma_eval_call_names(funcs, st, name, args, fuel);
        },
        ExprView::ObjectLiteral(fields) => {
            lemma_eval_fields_names(funcs, st, fields, 0, Seq::empty(), fuel);
        },
        ExprView::ListLiteral(items) => {
            lemma_eval_list_names(funcs, st, items, 0, Seq::empty(), fuel);
        },
        ExprView::Binary(op, left, right) => {
            lemma_eval_expr_names(funcs, st, *left, fuel);
            match eval_expr(funcs, st, *left, fuel) {
                (Ok(a), st1) => {
                    lemma_eval_expr_names(funcs, st1, *right, fuel);
                },
                _ => {},
            }
        },
        ExprView::Unary(op, operand) => {
            lemma_eval_expr_names(funcs, st, *operand, fuel);
        },
        _ => {},
    }
}

/// A body that succeeds changes no name of any frame: what it declared is
/// gone with its frame. So a name resolves after the body if and only if it
/// did before.
pub proof fn lemma_exec_body_names(
    funcs: FuncsView,
    st: RuntimeView,
    body: Seq<StmtView>,
    fuel: nat,
)
    ensures
        exec_body(funcs, st, body, fuel).0 is Ok ==> same_names(
            st.scopes,
            exec_body(funcs, st, body, fuel).1.scopes,
        ),
    decreases fuel, 1nat, body, body.len() + 1,
{
    let entered = RuntimeView { scopes: st.scopes.push(Seq::empty()), ..st };
    lemma_exec_stmts_names(funcs, entered, body, 0, fuel);
    if exec_stmts(funcs, entered, body, 0, fuel).0 is Ok {
        lemma_dropped_names(
            st.scopes,
            Seq::empty(),
            exec_stmts(funcs, entered, body, 0, fuel).1.scopes,
        );
    }
}

/// Statements that succeed add names to the innermost frame only.
pub proof fn lemma_exec_stmts_names(
    funcs: FuncsView,
    st: RuntimeView,
    body: Seq<StmtView>,
    i: nat,
    fuel: nat,
)
    ensures
        exec_stmts(funcs, st, body, i, fuel).0 is Ok ==> more_names(
            st.scopes,
            exec_stmts(funcs, st, body, i, fuel).1.scopes,
        ),
    decreases fuel, 1nat, body, body.len() - i,
{
    if i < body.len() {
        lemma_exec_stmt_names(funcs, st, body[i as int], fuel);
        match exec_stmt(funcs, st, body[i as int], fuel) {
            (Ok(FlowView::Fallthrough), st1) => {
                lemma_exec_stmts_names(funcs, st1, body, i + 1, fuel);
            },
            _ => {},
        }
    }
}

/// A statement that succeeds adds names to the innermost frame only, and
/// only a declaration adds one.
pub proof fn lemma_exec_stmt_names(funcs: FuncsView, st: RuntimeView, s: StmtView, fuel: nat)
    ensures
        exec_stmt(funcs, st, s, fuel).0 is Ok ==> more_names(
            st.scopes,
            exec_stmt(funcs, st, s, fuel).1.scopes,
        ),
        !(s is Decl) && exec_stmt(funcs, st, s, fuel).0 is Ok ==> same_names(
            st.scopes,
            exec_stmt(funcs, st, s, fuel).1.scopes,
        ),
    decreases fuel, 1nat, s, 0nat,
{
    match s {
        StmtView::FnCall(name, args) => {
            lemma_eval_call_names(funcs, st, name, args, fuel);
        },
        StmtView::Return(e) => {
            lemma_eval_expr_names(funcs, st, e, fuel);
        },
        StmtView::If(cond, body) => {
            lemma_eval_expr_names(funcs, st, cond, fuel);
            match eval_expr(funcs, st, cond, fuel) {
                (Ok(c), st1) => {
                    if as_condition(c) == Ok::<bool, RuntimeErrorView>(true) {
                        lemma_exec_body_names(funcs, st1, body, fuel);
                    }
                },
                _ => {},
            }
        },
        StmtView::While(cond, body) => {
            lemma_eval_expr_names(funcs, st, cond, fuel);
            match eval_expr(funcs, st, cond, fuel) {
                (Ok(c), st1) => {
                    if as_condition(c) == Ok::<bool, RuntimeErrorView>(true) {
                        lemma_exec_body_names(funcs, st1, body, fuel);
                        match exec_body(funcs, st1, body, fuel) {
                            (Ok(FlowView::Fallthrough), st2) => {
                                if fuel > 0 {
                                    lemma_exec_stmt_names(funcs, st2, s, (fuel - 1) as nat);
                                }
                            },
                            _ => {},
                        }
                    }
                },
                _ => {},
            }
        },
        StmtView::Assign(name, e) => {
            lemma_eval_expr_names(funcs, st, e, fuel);
            match eval_expr(funcs, st, e, fuel) {
                (Ok(v), st1) => {
                    lemma_assign_names(st1.scopes, name, v);
                },
                _ => {},
            }
        },
        StmtView::Decl(name, e) => {
            lemma_eval_expr_names(funcs, st, e, fuel);
            match eval_expr(funcs, st, e, fuel) {
                (Ok(v), st1) => {
                    if st1.scopes.len() > 0 {
                        lemma_put_names(st1.scopes.last(), name, v);
                    }
                },
                _ => {},
            }
        },
    }
}

/// A variable that a block declares is out of reach after the block: a name
/// that did not resolve before an `if` or a `while` statement, or before a
/// call, does not resolve after it.
pub proof fn lemma_block_variables_do_not_leak(
    funcs: FuncsView,
    st: RuntimeView,
    body: Seq<StmtView>,
    key: Seq<char>,
    fuel: nat,
)
    requires
        exec_body(funcs, st, body, fuel).0 is Ok,
    ensures
        resolve(exec_body(funcs, st, body, fuel).1.scopes, key) is Some <==> resolve(
            st.scopes,
            key,
        ) is Some,
{
    lemma_exec_body_names(funcs, st, body, fuel);
    lemma_same_names_resolve(st.scopes, exec_body(funcs, st, body, fuel).1.scopes, key);
}

} // verus!
