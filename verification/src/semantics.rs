//! The meaning of programs: what evaluating an expression, executing a
//! statement and calling a function give, as functions of the state before.
//!
//! A run works on a state of four parts: the scope chain, the heap, the text
//! written so far and the input. Every function here returns the result
//! together with the state after. A failure ends the run: it is handed up
//! unchanged, with the state in which it arose.
//!
//! A run has two limits, and reaching one stops it like a failure. `fuel`
//! bounds the work: each call of a function and each further round of a loop
//! takes one unit from what the work inside may use, and a run that would
//! need more stops with `OutOfFuel`. The input may be given in part: a run
//! that reads beyond the lines given, where more may follow, stops with
//! `NeedsInput`. A stopped run is run again from the start with more fuel or
//! more lines; see the modules `budget` and `input` for what it then does.

use vstd::prelude::*;
use crate::bindings::{distinct_keys, lemma_put_distinct, put, FieldsView};
use crate::heap::{display_spec, list_at, ContainerView, HeapView};
use crate::registry::{arity, Builtin, FnObjView, FuncsView};
use crate::scope::{assign, declare, resolve, ScopesView};
use crate::syntax::{DeclView, ExprView, StmtView};
use crate::text::{parse_int_spec, trim_end_spec};
use crate::value::{
    kind_name_spec, operate_spec, operate_unary_spec, OperationErrorView, Operator, ValueView,
};

verus! {

/// The state of a run.
pub struct RuntimeView {
    /// The frames of variables, the innermost last.
    pub scopes: ScopesView,
    /// The lists and objects.
    pub heap: HeapView,
    /// What has been written.
    pub output: Seq<char>,
    /// The lines of input that are there and have not been read.
    pub input: Seq<Seq<char>>,
    /// Whether more lines may follow those that are there.
    pub input_open: bool,
}

/// Why a run failed.
pub enum RuntimeErrorView {
    OperationError(OperationErrorView),
    InvalidArgCount(nat, nat),
    UndefinedIdentifier(Seq<char>),
    InvalidArgumentType(Seq<char>, Seq<char>),
    NoScope,
    IndexOutOfBounds(nat, int),
    OutOfFuel,
    NeedsInput,
}

/// How a statement or a body ended: with a `return`, or by reaching its end.
pub enum FlowView {
    Return(ValueView),
    Fallthrough,
}

/// The result of a step of a run and the state after it.
pub type Outcome<T> = (Result<T, RuntimeErrorView>, RuntimeView);

/// Reads a line of input: the next line without its trailing whitespace. At
/// the end of the input it gives the empty string; where the lines that are
/// there are used up and more may follow, the run stops.
pub open spec fn read_line(st: RuntimeView) -> Outcome<ValueView> {
    if st.input.len() == 0 {
        if st.input_open {
            (Err(RuntimeErrorView::NeedsInput), st)
        } else {
            (Ok(ValueView::String(Seq::empty())), st)
        }
    } else {
        (
            Ok(ValueView::String(trim_end_spec(st.input[0]))),
            RuntimeView { input: st.input.drop_first(), ..st },
        )
    }
}

/// What a value must be to serve as a list: a list handle that designates a
/// list of the heap.
pub open spec fn as_list(heap: HeapView, v: ValueView) -> Option<(usize, Seq<ValueView>)> {
    match v {
        ValueView::List(h) => match list_at(heap, h) {
            Some(items) => Some((h, items)),
            None => None,
        },
        _ => None,
    }
}

/// The failure of an argument that has not the type asked for.
pub open spec fn wrong_type(expected: Seq<char>, got: ValueView) -> RuntimeErrorView {
    RuntimeErrorView::InvalidArgumentType(expected, kind_name_spec(got))
}

/// What a builtin does, given as many arguments as it takes.
pub open spec fn call_builtin(
    b: Builtin,
    st: RuntimeView,
    args: Seq<ValueView>,
    fuel: nat,
) -> Outcome<ValueView>
    recommends
        args.len() == crate::registry::builtin_arity(b),
{
    match b {
        Builtin::Print => match display_spec(st.heap, args[0], fuel) {
            Some(s) => (Ok(ValueView::Null), RuntimeView { output: st.output + s + "\n"@, ..st }),
            None => (Err(RuntimeErrorView::OutOfFuel), st),
        },
        Builtin::Prompt => match args[0] {
            ValueView::String(msg) => read_line(RuntimeView { output: st.output + msg, ..st }),
            other => (Err(wrong_type("string"@, other)), st),
        },
        Builtin::Input => read_line(st),
        Builtin::ParseInt => match args[0] {
            ValueView::String(s) => match parse_int_spec(s) {
                Some(n) => (Ok(ValueView::Number(n)), st),
                None => (Err(RuntimeErrorView::InvalidArgumentType("integer"@, "string"@)), st),
            },
            other => (Err(wrong_type("string"@, other)), st),
        },
        Builtin::ToString => match display_spec(st.heap, args[0], fuel) {
            Some(s) => (Ok(ValueView::String(s)), st),
            None => (Err(RuntimeErrorView::OutOfFuel), st),
        },
        Builtin::Len => match as_list(st.heap, args[0]) {
            Some((h, items)) => (Ok(ValueView::Number(items.len() as i32)), st),
            None => (Err(wrong_type("list"@, args[0])), st),
        },
        Builtin::Get => match as_list(st.heap, args[0]) {
            Some((h, items)) => match args[1] {
                ValueView::Number(i) => if 0 <= i < items.len() {
                    (Ok(items[i as int]), st)
                } else {
                    (Err(RuntimeErrorView::IndexOutOfBounds(items.len(), i as int)), st)
                },
                other => (Err(wrong_type("number"@, other)), st),
            },
            None => (Err(wrong_type("list"@, args[0])), st),
        },
        Builtin::SetItem => match as_list(st.heap, args[0]) {
            Some((h, items)) => match args[1] {
                ValueView::Number(i) => if 0 <= i < items.len() {
                    (
                        Ok(ValueView::Null),
                        RuntimeView {
                            heap: st.heap.update(
                                h as int,
                                ContainerView::List(items.update(i as int, args[2])),
                            ),
                            ..st
                        },
                    )
                } else {
                    (Err(RuntimeErrorView::IndexOutOfBounds(items.len(), i as int)), st)
                },
                other => (Err(wrong_type("number"@, other)), st),
            },
            None => (Err(wrong_type("list"@, args[0])), st),
        },
        Builtin::Append => match as_list(st.heap, args[0]) {
            Some((h, items)) => (
                Ok(ValueView::Null),
                RuntimeView {
                    heap: st.heap.update(h as int, ContainerView::List(items.push(args[1]))),
                    ..st
                },
            ),
            None => (Err(wrong_type("list"@, args[0])), st),
        },
    }
}

/// The frame of a call: each parameter bound to its argument, in order.
pub open spec fn bind_params(params: Seq<Seq<char>>, args: Seq<ValueView>) -> FieldsView
    recommends
        params.len() == args.len(),
    decreases params.len(),
{
    if params.len() == 0 {
        Seq::empty()
    } else {
        put(bind_params(params.drop_last(), args.drop_last()), params.last(), args.last())
    }
}

/// Removes the innermost frame after a body or a call: fails with `NoScope`
/// where there is none, and else hands on what the body gave.
pub open spec fn leave_frame<T>(r: Result<T, RuntimeErrorView>, st: RuntimeView) -> Outcome<T> {
    if st.scopes.len() == 0 {
        (Err(RuntimeErrorView::NoScope), st)
    } else {
        (r, RuntimeView { scopes: st.scopes.drop_last(), ..st })
    }
}

/// The state without its innermost frame, if it has one.
pub open spec fn without_frame(st: RuntimeView) -> RuntimeView {
    if st.scopes.len() == 0 {
        st
    } else {
        RuntimeView { scopes: st.scopes.drop_last(), ..st }
    }
}

/// Calls a function with evaluated arguments. A call with another number of
/// arguments than the function takes fails at once, the state untouched. A
/// user-defined function runs its body in a new frame that holds the
/// parameters, which is removed when the body is done or has failed; a body
/// that ends without `return` gives `null`.
pub open spec fn call_fn(
    funcs: FuncsView,
    st: RuntimeView,
    f: FnObjView,
    args: Seq<ValueView>,
    fuel: nat,
) -> Outcome<ValueView>
    decreases fuel, 2nat, f, 0nat,
{
    if args.len() != arity(f) {
        (Err(RuntimeErrorView::InvalidArgCount(arity(f), args.len())), st)
    } else {
        match f {
            FnObjView::Builtin(b) => call_builtin(b, st, args, fuel),
            FnObjView::Defined { params, body } => {
                let entered = RuntimeView {
                    scopes: st.scopes.push(bind_params(params, args)),
                    ..st
                };
                match exec_body(funcs, entered, body, fuel) {
                    (Ok(FlowView::Return(v)), after) => leave_frame(Ok(v), after),
                    (Ok(FlowView::Fallthrough), after) => leave_frame(Ok(ValueView::Null), after),
                    (Err(e), after) => (Err(e), without_frame(after)),
                }
            },
        }
    }
}

/// Evaluates the call `name(args)`: finds the function, evaluates the
/// arguments from left to right, then calls. A name that the table lacks is
/// an undefined identifier, and it is found out before any argument is
/// evaluated.
pub open spec fn eval_call(
    funcs: FuncsView,
    st: RuntimeView,
    name: Seq<char>,
    args: Seq<ExprView>,
    fuel: nat,
) -> Outcome<ValueView>
    decreases fuel, 0nat, args, args.len() + 1,
{
    if !funcs.contains_key(name) {
        (Err(RuntimeErrorView::UndefinedIdentifier(name)), st)
    } else {
        match eval_list(funcs, st, args, 0, Seq::empty(), fuel) {
            (Err(e), st1) => (Err(e), st1),
            (Ok(values), st1) => if fuel == 0 {
                (Err(RuntimeErrorView::OutOfFuel), st1)
            } else {
                call_fn(funcs, st1, funcs[name], values, (fuel - 1) as nat)
            },
        }
    }
}

/// Evaluates the expressions from `i` on, from left to right, and adds their
/// values to `acc`. Stops at the first failure.
pub open spec fn eval_list(
    funcs: FuncsView,
    st: RuntimeView,
    items: Seq<ExprView>,
    i: nat,
    acc: Seq<ValueView>,
    fuel: nat,
) -> Outcome<Seq<ValueView>>
    decreases fuel, 0nat, items, items.len() - i,
{
    if i >= items.len() {
        (Ok(acc), st)
    } else {
        match eval_expr(funcs, st, items[i as int], fuel) {
            (Err(e), st1) => (Err(e), st1),
            (Ok(v), st1) => eval_list(funcs, st1, items, i + 1, acc.push(v), fuel),
        }
    }
}

/// Evaluates the fields of an object literal from `i` on, in order, and binds
/// each name in `acc`, so that of two fields of one name the later one stays.
pub open spec fn eval_fields(
    funcs: FuncsView,
    st: RuntimeView,
    fields: Seq<(Seq<char>, ExprView)>,
    i: nat,
    acc: FieldsView,
    fuel: nat,
) -> Outcome<FieldsView>
    decreases fuel, 0nat, fields, fields.len() - i,
{
    if i >= fields.len() {
        (Ok(acc), st)
    } else {
        match eval_expr(funcs, st, fields[i as int].1, fuel) {
            (Err(e), st1) => (Err(e), st1),
            (Ok(v), st1) => eval_fields(
                funcs,
                st1,
                fields,
                i + 1,
                put(acc, fields[i as int].0, v),
                fuel,
            ),
        }
    }
}

/// The value of an expression.
pub open spec fn eval_expr(funcs: FuncsView, st: RuntimeView, e: ExprView, fuel: nat) -> Outcome<
    ValueView,
>
    decreases fuel, 0nat, e, 0nat,
{
    match e {
        ExprView::Identifier(name) => if st.scopes.len() == 0 {
            (Err(RuntimeErrorView::NoScope), st)
        } else {
            match resolve(st.scopes, name) {
                Some(v) => (Ok(v), st),
                None => (Err(RuntimeErrorView::UndefinedIdentifier(name)), st),
            }
        },
        ExprView::NumberLiteral(n) => (Ok(ValueView::Number(n)), st),
        ExprView::BooleanLiteral(b) => (Ok(ValueView::Boolean(b)), st),
        ExprView::StringLiteral(s) => (Ok(ValueView::String(s)), st),
        ExprView::NullLiteral => (Ok(ValueView::Null), st),
        ExprView::FnCall(name, args) => eval_call(funcs, st, name, args, fuel),
        ExprView::FieldAccess(obj, field) => (
            Err(RuntimeErrorView::UndefinedIdentifier(field)),
            st,
        ),
        ExprView::ObjectLiteral(fields) => match eval_fields(
            funcs,
            st,
            fields,
            0,
            Seq::empty(),
            fuel,
        ) {
            (Err(e), st1) => (Err(e), st1),
            (Ok(bound), st1) => (
                Ok(ValueView::Object(st1.heap.len() as usize)),
                RuntimeView { heap: st1.heap.push(ContainerView::Object(bound)), ..st1 },
            ),
        },
        ExprView::ListLiteral(items) => match eval_list(funcs, st, items, 0, Seq::empty(), fuel) {
            (Err(e), st1) => (Err(e), st1),
            (Ok(values), st1) => (
                Ok(ValueView::List(st1.heap.len() as usize)),
                RuntimeView { heap: st1.heap.push(ContainerView::List(values)), ..st1 },
            ),
        },
        ExprView::Binary(op, left, right) => match eval_expr(funcs, st, *left, fuel) {
            (Err(e), st1) => (Err(e), st1),
            (Ok(a), st1) => match eval_expr(funcs, st1, *right, fuel) {
                (Err(e), st2) => (Err(e), st2),
                (Ok(b), st2) => {
                    let (r, heap) = operate_spec(a, b, op, st2.heap);
                    let st3 = RuntimeView { heap, ..st2 };
                    match r {
                        Ok(v) => (Ok(v), st3),
                        Err(e) => (Err(RuntimeErrorView::OperationError(e)), st3),
                    }
                },
            },
        },
        ExprView::Unary(op, operand) => match eval_expr(funcs, st, *operand, fuel) {
            (Err(e), st1) => (Err(e), st1),
            (Ok(a), st1) => match operate_unary_spec(a, op) {
                Ok(v) => (Ok(v), st1),
                Err(e) => (Err(RuntimeErrorView::OperationError(e)), st1),
            },
        },
    }
}

/// Executes a body: the statements in order, in a new frame of their own,
/// which is removed when they are done. Stops at the first `return`.
pub open spec fn exec_body(
    funcs: FuncsView,
    st: RuntimeView,
    body: Seq<StmtView>,
    fuel: nat,
) -> Outcome<FlowView>
    decreases fuel, 1nat, body, body.len() + 1,
{
    let entered = RuntimeView { scopes: st.scopes.push(Seq::empty()), ..st };
    match exec_stmts(funcs, entered, body, 0, fuel) {
        (Err(e), after) => (Err(e), after),
        (Ok(flow), after) => leave_frame(Ok(flow), after),
    }
}

/// Executes the statements from `i` on, in order. Stops at the first `return`
/// and at the first failure.
pub open spec fn exec_stmts(
    funcs: FuncsView,
    st: RuntimeView,
    body: Seq<StmtView>,
    i: nat,
    fuel: nat,
) -> Outcome<FlowView>
    decreases fuel, 1nat, body, body.len() - i,
{
    if i >= body.len() {
        (Ok(FlowView::Fallthrough), st)
    } else {
        match exec_stmt(funcs, st, body[i as int], fuel) {
            (Ok(FlowView::Fallthrough), st1) => exec_stmts(funcs, st1, body, i + 1, fuel),
            other => other,
        }
    }
}

/// Reads the value of a condition: it must be a boolean.
pub open spec fn as_condition(v: ValueView) -> Result<bool, RuntimeErrorView> {
    match v {
        ValueView::Boolean(b) => Ok(b),
        other => Err(wrong_type("boolean"@, other)),
    }
}

/// Executes a statement.
pub open spec fn exec_stmt(funcs: FuncsView, st: RuntimeView, s: StmtView, fuel: nat) -> Outcome<
    FlowView,
>
    decreases fuel, 1nat, s, 0nat,
{
    match s {
        StmtView::FnCall(name, args) => match eval_call(funcs, st, name, args, fuel) {
            (Err(e), st1) => (Err(e), st1),
            (Ok(_), st1) => (Ok(FlowView::Fallthrough), st1),
        },
        StmtView::Return(e) => match eval_expr(funcs, st, e, fuel) {
            (Err(e), st1) => (Err(e), st1),
            (Ok(v), st1) => (Ok(FlowView::Return(v)), st1),
        },
        StmtView::If(cond, body) => match eval_expr(funcs, st, cond, fuel) {
            (Err(e), st1) => (Err(e), st1),
            (Ok(c), st1) => match as_condition(c) {
                Err(e) => (Err(e), st1),
                Ok(true) => exec_body(funcs, st1, body, fuel),
                Ok(false) => (Ok(FlowView::Fallthrough), st1),
            },
        },
        StmtView::While(cond, body) => match eval_expr(funcs, st, cond, fuel) {
            (Err(e), st1) => (Err(e), st1),
            (Ok(c), st1) => match as_condition(c) {
                Err(e) => (Err(e), st1),
                Ok(false) => (Ok(FlowView::Fallthrough), st1),
                Ok(true) => match exec_body(funcs, st1, body, fuel) {
                    (Ok(FlowView::Fallthrough), st2) => if fuel == 0 {
                        (Err(RuntimeErrorView::OutOfFuel), st2)
                    } else {
                        exec_stmt(funcs, st2, s, (fuel - 1) as nat)
                    },
                    other => other,
                },
            },
        },
        StmtView::Assign(name, e) => match eval_expr(funcs, st, e, fuel) {
            (Err(e), st1) => (Err(e), st1),
            (Ok(v), st1) => if st1.scopes.len() == 0 {
                (Err(RuntimeErrorView::NoScope), st1)
            } else {
                match assign(st1.scopes, name, v) {
                    Some(scopes) => (Ok(FlowView::Fallthrough), RuntimeView { scopes, ..st1 }),
                    None => (Err(RuntimeErrorView::UndefinedIdentifier(name)), st1),
                }
            },
        },
        StmtView::Decl(name, e) => match eval_expr(funcs, st, e, fuel) {
            (Err(e), st1) => (Err(e), st1),
            (Ok(v), st1) => if st1.scopes.len() == 0 {
                (Err(RuntimeErrorView::NoScope), st1)
            } else {
                (
                    Ok(FlowView::Fallthrough),
                    RuntimeView { scopes: declare(st1.scopes, name, v), ..st1 },
                )
            },
        },
    }
}

/// The table with the builtins entered under their names.
pub open spec fn with_builtins(funcs: FuncsView) -> FuncsView {
    funcs.insert("print"@, FnObjView::Builtin(Builtin::Print)).insert(
        "prompt"@,
        FnObjView::Builtin(Builtin::Prompt),
    ).insert("input"@, FnObjView::Builtin(Builtin::Input)).insert(
        "parseint"@,
        FnObjView::Builtin(Builtin::ParseInt),
    ).insert("tostring"@, FnObjView::Builtin(Builtin::ToString)).insert(
        "len"@,
        FnObjView::Builtin(Builtin::Len),
    ).insert("get"@, FnObjView::Builtin(Builtin::Get)).insert(
        "set"@,
        FnObjView::Builtin(Builtin::SetItem),
    ).insert("append"@, FnObjView::Builtin(Builtin::Append))
}

/// The table after a declaration: the function entered under its name, in
/// place of an earlier one of that name.
pub open spec fn with_decl(funcs: FuncsView, decl: DeclView) -> FuncsView {
    match decl {
        DeclView::FnDecl(f) => funcs.insert(
            f.name,
            FnObjView::Defined { params: f.params, body: f.body },
        ),
    }
}

/// The table after a sequence of declarations, in order.
pub open spec fn with_decls(funcs: FuncsView, decls: Seq<DeclView>) -> FuncsView
    decreases decls.len(),
{
    if decls.len() == 0 {
        funcs
    } else {
        with_decl(with_decls(funcs, decls.drop_last()), decls.last())
    }
}

/// The string values that stand for the arguments of a program.
pub open spec fn string_values(args: Seq<Seq<char>>) -> Seq<ValueView> {
    Seq::new(args.len(), |i: int| ValueView::String(args[i]))
}

/// Runs a program: enters the builtins and the declarations into the table and
/// calls `main` with the program's arguments as strings. A program without
/// `main` fails with `main` as an undefined identifier.
pub open spec fn run_program(
    funcs: FuncsView,
    st: RuntimeView,
    decls: Seq<DeclView>,
    args: Seq<Seq<char>>,
    fuel: nat,
) -> Outcome<()> {
    let table = with_decls(with_builtins(funcs), decls);
    if !table.contains_key("main"@) {
        (Err(RuntimeErrorView::UndefinedIdentifier("main"@)), st)
    } else {
        match call_fn(table, st, table["main"@], string_values(args), fuel) {
            (Ok(_), st1) => (Ok(()), st1),
            (Err(e), st1) => (Err(e), st1),
        }
    }
}

/// A call with another number of arguments than the function takes fails with
/// both numbers, and nothing has happened: the state is the one before the
/// call, so no statement of the body has run.
pub proof fn lemma_wrong_arg_count(
    funcs: FuncsView,
    st: RuntimeView,
    f: FnObjView,
    args: Seq<ValueView>,
    fuel: nat,
)
    requires
        args.len() != arity(f),
    ensures
        call_fn(funcs, st, f, args, fuel) == (
            Err::<ValueView, RuntimeErrorView>(
                RuntimeErrorView::InvalidArgCount(arity(f), args.len()),
            ),
            st,
        ),
{
}

/// Appending to a list makes it one longer: `len` of the list after
/// `append(list, x)` is the length before plus one. It changes the one list
/// in the heap and nothing else of the state.
pub proof fn lemma_append_then_len(st: RuntimeView, list: ValueView, x: ValueView, fuel: nat)
    requires
        as_list(st.heap, list) is Some,
    ensures
        ({
            let (h, items) = as_list(st.heap, list).unwrap();
            let (appended, after) = call_builtin(Builtin::Append, st, seq![list, x], fuel);
            &&& appended == Ok::<ValueView, RuntimeErrorView>(ValueView::Null)
            &&& as_list(after.heap, list) == Some((h, items.push(x)))
            &&& after == (RuntimeView { heap: after.heap, ..st })
            &&& call_builtin(Builtin::Len, after, seq![list], fuel) == (
                Ok::<ValueView, RuntimeErrorView>(ValueView::Number((items.len() + 1) as i32)),
                after,
            )
            &&& items.len() < i32::MAX ==> {
                &&& call_builtin(Builtin::Len, st, seq![list], fuel).0 == Ok::<
                    ValueView,
                    RuntimeErrorView,
                >(ValueView::Number(items.len() as i32))
                &&& (items.len() + 1) as i32 == (items.len() as i32) + 1
            }
        }),
{
}

/// `get(list, i)` with an index below zero or not below the length of the
/// list fails with the length and the index, and changes nothing. It gives no
/// other item in place of the missing one.
pub proof fn lemma_get_out_of_bounds(st: RuntimeView, list: ValueView, i: i32, fuel: nat)
    requires
        as_list(st.heap, list) is Some,
        i < 0 || i >= as_list(st.heap, list).unwrap().1.len(),
    ensures
        call_builtin(Builtin::Get, st, seq![list, ValueView::Number(i)], fuel) == (
            Err::<ValueView, RuntimeErrorView>(
                RuntimeErrorView::IndexOutOfBounds(
                    as_list(st.heap, list).unwrap().1.len(),
                    i as int,
                ),
            ),
            st,
        ),
{
}

/// `get(list, i)` with an index within the list gives item `i` and changes
/// nothing.
pub proof fn lemma_get_in_bounds(st: RuntimeView, list: ValueView, i: i32, fuel: nat)
    requires
        as_list(st.heap, list) is Some,
        0 <= i < as_list(st.heap, list).unwrap().1.len(),
    ensures
        call_builtin(Builtin::Get, st, seq![list, ValueView::Number(i)], fuel) == (
            Ok::<ValueView, RuntimeErrorView>(as_list(st.heap, list).unwrap().1[i as int]),
            st,
        ),
{
}

/// Two values that designate one list are aliases: what is appended through
/// one is seen through the other. A copy of a list value is such an alias,
/// since it holds the same handle.
pub proof fn lemma_alias_sees_append(
    st: RuntimeView,
    list: ValueView,
    alias: ValueView,
    x: ValueView,
    fuel: nat,
)
    requires
        alias == list,
        as_list(st.heap, list) is Some,
    ensures
        ({
            let items = as_list(st.heap, list).unwrap().1;
            let after = call_builtin(Builtin::Append, st, seq![alias, x], fuel).1;
            &&& as_list(after.heap, list).unwrap().1 == items.push(x)
            &&& call_builtin(Builtin::Len, after, seq![list], fuel).0 == Ok::<
                ValueView,
                RuntimeErrorView,
            >(ValueView::Number((items.len() + 1) as i32))
        }),
{
}

/// Evaluating `a + b`, `a - b` and `a * b` on numbers gives what the
/// machine's 32-bit arithmetic gives, overflow included, and leaves the state
/// as it is. Evaluating `a / 0` fails with the operator and both operands.
pub proof fn lemma_eval_arithmetic(funcs: FuncsView, st: RuntimeView, a: i32, b: i32, fuel: nat)
    ensures
        eval_expr(funcs, st, number_operation(Operator::Plus, a, b), fuel) == (
            Ok::<ValueView, RuntimeErrorView>(ValueView::Number(a.wrapping_add(b))),
            st,
        ),
        eval_expr(funcs, st, number_operation(Operator::Minus, a, b), fuel) == (
            Ok::<ValueView, RuntimeErrorView>(ValueView::Number(a.wrapping_sub(b))),
            st,
        ),
        eval_expr(funcs, st, number_operation(Operator::Star, a, b), fuel) == (
            Ok::<ValueView, RuntimeErrorView>(ValueView::Number(a.wrapping_mul(b))),
            st,
        ),
        eval_expr(funcs, st, number_operation(Operator::Slash, a, 0), fuel) == (
            Err::<ValueView, RuntimeErrorView>(
                RuntimeErrorView::OperationError(
                    OperationErrorView::InvalidBinary(
                        ValueView::Number(a),
                        Operator::Slash,
                        ValueView::Number(0),
                    ),
                ),
            ),
            st,
        ),
{
    crate::value::lemma_number_arithmetic(a, b);
    reveal_with_fuel(eval_expr, 2);
}

/// The expression `a op b` on two number literals.
pub open spec fn number_operation(op: Operator, a: i32, b: i32) -> ExprView {
    ExprView::Binary(
        op,
        Box::new(ExprView::NumberLiteral(a)),
        Box::new(ExprView::NumberLiteral(b)),
    )
}

/// Assigning to a variable that no frame binds fails with the name as an
/// undefined identifier and changes nothing: no variable is made, and the name
/// is as undefined afterwards as it was before. Only where there is no frame
/// at all is the failure that of a missing scope.
pub proof fn lemma_assign_undeclared(
    funcs: FuncsView,
    st: RuntimeView,
    name: Seq<char>,
    e: ExprView,
    fuel: nat,
)
    requires
        eval_expr(funcs, st, e, fuel).0 is Ok,
        resolve(eval_expr(funcs, st, e, fuel).1.scopes, name) is None,
    ensures
        ({
            let after = eval_expr(funcs, st, e, fuel).1;
            let failure = if after.scopes.len() == 0 {
                RuntimeErrorView::NoScope
            } else {
                RuntimeErrorView::UndefinedIdentifier(name)
            };
            &&& exec_stmt(funcs, st, StmtView::Assign(name, e), fuel) == (
                Err::<FlowView, RuntimeErrorView>(failure),
                after,
            )
            &&& eval_expr(funcs, after, ExprView::Identifier(name), fuel) == (
                Err::<ValueView, RuntimeErrorView>(failure),
                after,
            )
        }),
{
    let (r, after) = eval_expr(funcs, st, e, fuel);
    crate::scope::lemma_assign_where_resolved(after.scopes, name, r->Ok_0);
}

/// The fields of an object literal make an object without a name twice: of
/// two fields of one name only the later one is kept.
pub proof fn lemma_eval_fields_distinct(
    funcs: FuncsView,
    st: RuntimeView,
    fields: Seq<(Seq<char>, ExprView)>,
    i: nat,
    acc: FieldsView,
    fuel: nat,
)
    requires
        distinct_keys(acc),
    ensures
        eval_fields(funcs, st, fields, i, acc, fuel).0 matches Ok(bound) ==> distinct_keys(bound),
    decreases fields.len() - i,
{
    if i < fields.len() {
        match eval_expr(funcs, st, fields[i as int].1, fuel) {
            (Ok(v), st1) => {
                lemma_put_distinct(acc, fields[i as int].0, v);
                lemma_eval_fields_distinct(
                    funcs,
                    st1,
                    fields,
                    i + 1,
                    put(acc, fields[i as int].0, v),
                    fuel,
                );
            },
            _ => {},
        }
    }
}

} // verus!
