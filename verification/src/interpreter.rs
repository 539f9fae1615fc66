//! The evaluator: walks the syntax tree and does what the semantics say.

use vstd::prelude::*;
use crate::bindings::{Bindings, FieldsView};
use crate::heap::Heap;
use crate::registry::{arity, builtin_arity, Builtin, FnObj, FnObjView, FuncsView, ObjRegistry};
use crate::scope::ScopeManager;
use crate::semantics::{
    as_list, bind_params, call_builtin, call_fn, eval_call, eval_expr, eval_fields, eval_list,
    exec_body, exec_stmt, exec_stmts, leave_frame, read_line, run_program, string_values,
    with_builtins, with_decl, with_decls, wrong_type, FlowView, RuntimeErrorView, RuntimeView,
};
use crate::syntax::{
    decls_view, expr_view, exprs_view, stmts_view, strings_view, Decl, DeclView, Expr, Stmt,
};
use crate::text::{parse_i32, string_from_chars, to_chars, trim_end};
use crate::value::{values_view, OperationError, Value, ValueView};

verus! {

/// Why a run failed.
#[derive(Debug, PartialEq, Eq)]
pub enum RuntimeError {
    /// An operator was applied to operands that it is not defined on.
    OperationError(OperationError),
    /// A function that takes the first number of arguments got the second.
    InvalidArgCount(usize, usize),
    /// A variable or a function of this name does not exist.
    UndefinedIdentifier(String),
    /// A value of the first type was asked for, one of the second was given.
    InvalidArgumentType(String, String),
    /// There is no frame.
    NoScope,
    /// A list of this length has no item at this index.
    IndexOutOfBounds(usize, isize),
    /// The run needed more than its budget.
    OutOfFuel,
    /// The run read beyond the lines of input given so far.
    NeedsInput,
}

impl View for RuntimeError {
    type V = RuntimeErrorView;

    open spec fn view(&self) -> RuntimeErrorView {
        match self {
            RuntimeError::OperationError(e) => RuntimeErrorView::OperationError(e@),
            RuntimeError::InvalidArgCount(expected, actual) => RuntimeErrorView::InvalidArgCount(
                *expected as nat,
                *actual as nat,
            ),
            RuntimeError::UndefinedIdentifier(name) => RuntimeErrorView::UndefinedIdentifier(name@),
            RuntimeError::InvalidArgumentType(expected, got) => {
                RuntimeErrorView::InvalidArgumentType(expected@, got@)
            },
            RuntimeError::NoScope => RuntimeErrorView::NoScope,
            RuntimeError::IndexOutOfBounds(len, index) => RuntimeErrorView::IndexOutOfBounds(
                *len as nat,
                *index as int,
            ),
            RuntimeError::OutOfFuel => RuntimeErrorView::OutOfFuel,
            RuntimeError::NeedsInput => RuntimeErrorView::NeedsInput,
        }
    }
}

/// How a statement or a body ended.
#[derive(Debug, PartialEq, Eq)]
pub enum BodyResult {
    /// With a `return` of this value.
    Return(Value),
    /// By reaching its end.
    Fallthrough,
}

impl View for BodyResult {
    type V = FlowView;

    open spec fn view(&self) -> FlowView {
        match self {
            BodyResult::Return(v) => FlowView::Return(v@),
            BodyResult::Fallthrough => FlowView::Fallthrough,
        }
    }
}

/// The view of the result of an evaluation.
pub open spec fn value_result(r: Result<Value, RuntimeError>) -> Result<
    ValueView,
    RuntimeErrorView,
> {
    match r {
        Ok(v) => Ok(v@),
        Err(e) => Err(e@),
    }
}

/// The view of the result of evaluating a list of expressions.
pub open spec fn values_result(r: Result<Vec<Value>, RuntimeError>) -> Result<
    Seq<ValueView>,
    RuntimeErrorView,
> {
    match r {
        Ok(v) => Ok(values_view(v@)),
        Err(e) => Err(e@),
    }
}

/// The view of the result of evaluating the fields of an object literal.
pub open spec fn fields_result(r: Result<Bindings, RuntimeError>) -> Result<
    FieldsView,
    RuntimeErrorView,
> {
    match r {
        Ok(v) => Ok(v@),
        Err(e) => Err(e@),
    }
}

/// The view of the result of a statement or a body.
pub open spec fn flow_result(r: Result<BodyResult, RuntimeError>) -> Result<
    FlowView,
    RuntimeErrorView,
> {
    match r {
        Ok(v) => Ok(v@),
        Err(e) => Err(e@),
    }
}

/// The view of the result of a run.
pub open spec fn unit_result(r: Result<(), RuntimeError>) -> Result<(), RuntimeErrorView> {
    match r {
        Ok(_) => Ok(()),
        Err(e) => Err(e@),
    }
}

/// The state of a run: the scope chain, the heap, what has been written and
/// the input.
#[derive(Debug)]
pub struct Runtime {
    scope: ScopeManager,
    heap: Heap,
    output: String,
    input: Vec<String>,
    consumed: usize,
    input_open: bool,
}

impl View for Runtime {
    type V = RuntimeView;

    closed spec fn view(&self) -> RuntimeView {
        RuntimeView {
            scopes: self.scope@,
            heap: self.heap@,
            output: self.output@,
            input: if self.consumed <= self.input.len() {
                strings_view(self.input@).skip(self.consumed as int)
            } else {
                Seq::empty()
            },
            input_open: self.input_open,
        }
    }
}

fn wrong_type_error(expected: &str, got: &Value) -> (e: RuntimeError)
    ensures
        e@ == wrong_type(expected@, got@),
{
    RuntimeError::InvalidArgumentType(expected.to_owned(), got.kind_name().to_owned())
}

impl Runtime {
    /// The state before a run: no frame, an empty heap, nothing written, and
    /// `input` as the lines to read. `input_open` says whether more lines may
    /// follow these.
    pub fn new(input: Vec<String>, input_open: bool) -> (rt: Runtime)
        ensures
            rt@ == (RuntimeView {
                scopes: Seq::empty(),
                heap: Seq::empty(),
                output: Seq::empty(),
                input: strings_view(input@),
                input_open,
            }),
    {
        let rt = Runtime {
            scope: ScopeManager::new(),
            heap: Heap::new(),
            output: String::new(),
            input,
            consumed: 0,
            input_open,
        };
        assert(strings_view(input@).skip(0) =~= strings_view(input@));
        rt
    }

    /// The scope chain.
    pub fn scope(&self) -> (s: &ScopeManager)
        ensures
            s@ == self@.scopes,
    {
        &self.scope
    }

    /// The heap.
    pub fn heap(&self) -> (h: &Heap)
        ensures
            h@ == self@.heap,
    {
        &self.heap
    }

    /// What has been written.
    pub fn output(&self) -> (s: &String)
        ensures
            s@ == self@.output,
    {
        &self.output
    }

    fn read_line(&mut self) -> (r: Result<Value, RuntimeError>)
        ensures
            (value_result(r), final(self)@) == read_line(old(self)@),
    {
        if self.consumed < self.input.len() {
            let chars = trim_end(to_chars(self.input[self.consumed].as_str()));
            let line = string_from_chars(chars.as_slice());
            proof {
                let lines = strings_view(self.input@);
                assert(lines.skip(self.consumed as int)[0] == lines[self.consumed as int]);
                assert(lines.skip(self.consumed as int).drop_first() =~= lines.skip(
                    self.consumed + 1,
                ));
            }
            self.consumed = self.consumed + 1;
            Ok(Value::String(line))
        } else {
            assert(self@.input.len() == 0);
            if self.input_open {
                Err(RuntimeError::NeedsInput)
            } else {
                Ok(Value::String(String::new()))
            }
        }
    }

    fn write(&mut self, text: &str)
        ensures
            final(self)@ == (RuntimeView { output: old(self)@.output + text@, ..old(self)@ }),
    {
        self.output.append(text);
    }

    /// Does what the builtin `b` does with the arguments `args`.
    pub fn call_builtin(&mut self, b: Builtin, args: Vec<Value>, fuel: usize) -> (r: Result<
        Value,
        RuntimeError,
    >)
        requires
            args.len() == builtin_arity(b),
        ensures
            (value_result(r), final(self)@) == call_builtin(
                b,
                old(self)@,
                values_view(args@),
                fuel as nat,
            ),
    {
        let ghost before = self@;
        match b {
            Builtin::Print => match self.heap.display(&args[0], fuel) {
                Some(s) => {
                    self.write(s.as_str());
                    self.write("\n");
                    assert(self@.output =~= before.output + s@ + "\n"@);
                    Ok(Value::Null)
                },
                None => Err(RuntimeError::OutOfFuel),
            },
            Builtin::Prompt => match &args[0] {
                Value::String(msg) => {
                    self.write(msg.as_str());
                    self.read_line()
                },
                other => Err(wrong_type_error("string", other)),
            },
            Builtin::Input => self.read_line(),
            Builtin::ParseInt => match &args[0] {
                Value::String(s) => match parse_i32(s.as_str()) {
                    Some(n) => Ok(Value::Number(n)),
                    None => Err(
                        RuntimeError::InvalidArgumentType(
                            "integer".to_owned(),
                            "string".to_owned(),
                        ),
                    ),
                },
                other => Err(wrong_type_error("string", other)),
            },
            Builtin::ToString => match self.heap.display(&args[0], fuel) {
                Some(s) => Ok(Value::String(s)),
                None => Err(RuntimeError::OutOfFuel),
            },
            Builtin::Len => match self.list_of(&args[0]) {
                Some(items) => Ok(Value::Number(#[verifier::truncate] (items.len() as i32))),
                None => Err(wrong_type_error("list", &args[0])),
            },
            Builtin::Get => match self.list_of(&args[0]) {
                Some(items) => match &args[1] {
                    Value::Number(i) => {
                        if 0 <= *i && (*i as usize) < items.len() {
                            Ok(items[*i as usize].copy_shallow())
                        } else {
                            Err(RuntimeError::IndexOutOfBounds(items.len(), *i as isize))
                        }
                    },
                    other => Err(wrong_type_error("number", other)),
                },
                None => Err(wrong_type_error("list", &args[0])),
            },
            Builtin::SetItem => match self.list_arg(&args[0]) {
                Some((h, len)) => match &args[1] {
                    Value::Number(i) => {
                        if 0 <= *i && (*i as usize) < len {
                            self.heap.list_set(h, *i as usize, args[2].copy_shallow());
                            Ok(Value::Null)
                        } else {
                            Err(RuntimeError::IndexOutOfBounds(len, *i as isize))
                        }
                    },
                    other => Err(wrong_type_error("number", other)),
                },
                None => Err(wrong_type_error("list", &args[0])),
            },
            Builtin::Append => match self.list_arg(&args[0]) {
                Some((h, len)) => {
                    self.heap.list_push(h, args[1].copy_shallow());
                    Ok(Value::Null)
                },
                None => Err(wrong_type_error("list", &args[0])),
            },
        }
    }

    fn list_of(&self, v: &Value) -> (r: Option<&Vec<Value>>)
        ensures
            match r {
                Some(items) => as_list(self@.heap, v@) matches Some((h, all)) && all
                    == values_view(items@),
                None => as_list(self@.heap, v@) is None,
            },
    {
        match v {
            Value::List(h) => self.heap.list(*h),
            _ => None,
        }
    }

    fn list_arg(&self, v: &Value) -> (r: Option<(usize, usize)>)
        ensures
            match r {
                Some((h, len)) => as_list(self@.heap, v@) matches Some((k, items)) && k == h
                    && items.len() == len,
                None => as_list(self@.heap, v@) is None,
            },
    {
        match v {
            Value::List(h) => match self.heap.list(*h) {
                Some(items) => Some((*h, items.len())),
                None => None,
            },
            _ => None,
        }
    }

    /// Calls `func` with the arguments `args`.
    pub fn call_fn(
        &mut self,
        funcs: &ObjRegistry,
        func: &FnObj,
        args: Vec<Value>,
        fuel: usize,
    ) -> (r: Result<Value, RuntimeError>)
        ensures
            (value_result(r), final(self)@) == call_fn(
                funcs@,
                old(self)@,
                func@,
                values_view(args@),
                fuel as nat,
            ),
        decreases fuel, 2nat,
    {
        if args.len() != func.param_count() {
            return Err(RuntimeError::InvalidArgCount(func.param_count(), args.len()));
        }
        match func {
            FnObj::Builtin(b) => self.call_builtin(*b, args, fuel),
            FnObj::Defined { params, body } => {
                let ghost before = self@;
                let ghost names = strings_view(params@);
                let ghost values = values_view(args@);
                self.scope.push_scope();
                let mut i: usize = 0;
                assert(names.take(0) =~= Seq::<Seq<char>>::empty());
                while i < params.len()
                    invariant
                        i <= params.len(),
                        params.len() == args.len(),
                        names == strings_view(params@),
                        values == values_view(args@),
                        self@ == (RuntimeView {
                            scopes: before.scopes.push(
                                bind_params(names.take(i as int), values.take(i as int)),
                            ),
                            ..before
                        }),
                    decreases params.len() - i,
                {
                    proof {
                        assert(names.take(i + 1).drop_last() =~= names.take(i as int));
                        assert(values.take(i + 1).drop_last() =~= values.take(i as int));
                    }
                    let ghost frames = self@.scopes;
                    let _ = self.scope.declare(params[i].clone(), args[i].copy_shallow());
                    assert(self@.scopes =~= before.scopes.push(
                        bind_params(names.take(i + 1), values.take(i + 1)),
                    ));
                    i = i + 1;
                }
                assert(names.take(i as int) =~= names);
                assert(values.take(i as int) =~= values);
                let value = match self.interpret_body(funcs, body, fuel) {
                    Ok(BodyResult::Return(v)) => v,
                    Ok(BodyResult::Fallthrough) => Value::Null,
                    Err(e) => {
                        let _ = self.scope.pop_scope();
                        return Err(e);
                    },
                };
                match self.scope.pop_scope() {
                    Ok(()) => Ok(value),
                    Err(()) => Err(RuntimeError::NoScope),
                }
            },
        }
    }

    /// Evaluates the call `name(args)`.
    pub fn evaluate_call(
        &mut self,
        funcs: &ObjRegistry,
        name: &String,
        args: &Vec<Expr>,
        fuel: usize,
    ) -> (r: Result<Value, RuntimeError>)
        ensures
            (value_result(r), final(self)@) == eval_call(
                funcs@,
                old(self)@,
                name@,
                exprs_view(*args),
                fuel as nat,
            ),
        decreases fuel, 0nat, args, 1nat,
    {
        let func = match funcs.get_func(name) {
            Some(f) => f,
            None => {
                return Err(RuntimeError::UndefinedIdentifier(name.clone()));
            },
        };
        let values = match self.evaluate_all(funcs, args, fuel) {
            Ok(values) => values,
            Err(e) => {
                return Err(e);
            },
        };
        if fuel == 0 {
            return Err(RuntimeError::OutOfFuel);
        }
        self.call_fn(funcs, func, values, fuel - 1)
    }

    /// Evaluates expressions from left to right. Stops at the first failure.
    pub fn evaluate_all(
        &mut self,
        funcs: &ObjRegistry,
        exprs: &Vec<Expr>,
        fuel: usize,
    ) -> (r: Result<Vec<Value>, RuntimeError>)
        ensures
            (values_result(r), final(self)@) == eval_list(
                funcs@,
                old(self)@,
                exprs_view(*exprs),
                0,
                Seq::empty(),
                fuel as nat,
            ),
        decreases fuel, 0nat, exprs, 0nat,
    {
        let ghost items = exprs_view(*exprs);
        let mut values: Vec<Value> = Vec::new();
        let mut i: usize = 0;
        assert(values_view(values@) =~= Seq::<ValueView>::empty());
        while i < exprs.len()
            invariant
                i <= exprs.len(),
                items == exprs_view(*exprs),
                eval_list(funcs@, old(self)@, items, 0, Seq::empty(), fuel as nat) == eval_list(
                    funcs@,
                    self@,
                    items,
                    i as nat,
                    values_view(values@),
                    fuel as nat,
                ),
            decreases exprs.len() - i,
        {
            let ghost acc = values_view(values@);
            match self.evaluate(funcs, &exprs[i], fuel) {
                Ok(v) => {
                    values.push(v);
                    assert(values_view(values@) =~= acc.push(v@));
                },
                Err(e) => {
                    return Err(e);
                },
            }
            i = i + 1;
        }
        Ok(values)
    }

    /// Evaluates the fields of an object literal in order.
    pub fn evaluate_fields(
        &mut self,
        funcs: &ObjRegistry,
        fields: &Vec<(String, Expr)>,
        fuel: usize,
    ) -> (r: Result<Bindings, RuntimeError>)
        ensures
            (fields_result(r), final(self)@) == eval_fields(
                funcs@,
                old(self)@,
                expr_view(Expr::ObjectLiteral(*fields))->ObjectLiteral_0,
                0,
                Seq::empty(),
                fuel as nat,
            ),
        decreases fuel, 0nat, fields, 0nat,
    {
        let ghost items = expr_view(Expr::ObjectLiteral(*fields))->ObjectLiteral_0;
        let mut bound = Bindings::new();
        let mut i: usize = 0;
        while i < fields.len()
            invariant
                i <= fields.len(),
                items == expr_view(Expr::ObjectLiteral(*fields))->ObjectLiteral_0,
                eval_fields(funcs@, old(self)@, items, 0, Seq::empty(), fuel as nat) == eval_fields(
                    funcs@,
                    self@,
                    items,
                    i as nat,
                    bound@,
                    fuel as nat,
                ),
            decreases fields.len() - i,
        {
            match self.evaluate(funcs, &fields[i].1, fuel) {
                Ok(v) => {
                    bound.put(fields[i].0.clone(), v);
                },
                Err(e) => {
                    return Err(e);
                },
            }
            i = i + 1;
        }
        Ok(bound)
    }

    /// Evaluates an expression.
    pub fn evaluate(&mut self, funcs: &ObjRegistry, expr: &Expr, fuel: usize) -> (r: Result<
        Value,
        RuntimeError,
    >)
        ensures
            (value_result(r), final(self)@) == eval_expr(funcs@, old(self)@, expr@, fuel as nat),
        decreases fuel, 0nat, expr, 0nat,
    {
        match expr {
            Expr::Identifier(name) => {
                if !self.scope.has_scope() {
                    return Err(RuntimeError::NoScope);
                }
                match self.scope.resolve(name) {
                    Some(v) => Ok(v.copy_shallow()),
                    None => Err(RuntimeError::UndefinedIdentifier(name.clone())),
                }
            },
            Expr::NumberLiteral(n) => Ok(Value::Number(*n)),
            Expr::BooleanLiteral(b) => Ok(Value::Boolean(*b)),
            Expr::StringLiteral(s) => Ok(Value::String(s.clone())),
            Expr::NullLiteral => Ok(Value::Null),
            Expr::FnCall(call) => self.evaluate_call(funcs, &call.name, &call.args, fuel),
            Expr::FieldAccess(access) => Err(
                RuntimeError::UndefinedIdentifier(access.field.clone()),
            ),
            Expr::ObjectLiteral(fields) => {
                match self.evaluate_fields(funcs, fields, fuel) {
                    Ok(bound) => Ok(self.heap.alloc_object(bound)),
                    Err(e) => Err(e),
                }
            },
            Expr::ListLiteral(items) => {
                match self.evaluate_all(funcs, items, fuel) {
                    Ok(values) => Ok(self.heap.alloc_list(values)),
                    Err(e) => Err(e),
                }
            },
            Expr::Binary(binary) => {
                let left = match self.evaluate(funcs, &binary.left, fuel) {
                    Ok(v) => v,
                    Err(e) => {
                        return Err(e);
                    },
                };
                let right = match self.evaluate(funcs, &binary.right, fuel) {
                    Ok(v) => v,
                    Err(e) => {
                        return Err(e);
                    },
                };
                match left.operate(&right, binary.op, &mut self.heap) {
                    Ok(v) => Ok(v),
                    Err(e) => Err(RuntimeError::OperationError(e)),
                }
            },
            Expr::Unary(unary) => {
                let operand = match self.evaluate(funcs, &unary.expr, fuel) {
                    Ok(v) => v,
                    Err(e) => {
                        return Err(e);
                    },
                };
                match operand.operate_unary(unary.op) {
                    Ok(v) => Ok(v),
                    Err(e) => Err(RuntimeError::OperationError(e)),
                }
            },
        }
    }

    /// Executes a body in a frame of its own.
    pub fn interpret_body(
        &mut self,
        funcs: &ObjRegistry,
        body: &Vec<Stmt>,
        fuel: usize,
    ) -> (r: Result<BodyResult, RuntimeError>)
        ensures
            (flow_result(r), final(self)@) == exec_body(
                funcs@,
                old(self)@,
                stmts_view(*body),
                fuel as nat,
            ),
        decreases fuel, 1nat, body, 1nat,
    {
        let ghost stmts = stmts_view(*body);
        self.scope.push_scope();
        let ghost entered = self@;
        let mut i: usize = 0;
        while i < body.len()
            invariant
                i <= body.len(),
                stmts == stmts_view(*body),
                exec_stmts(funcs@, entered, stmts, 0, fuel as nat) == exec_stmts(
                    funcs@,
                    self@,
                    stmts,
                    i as nat,
                    fuel as nat,
                ),
                exec_body(funcs@, old(self)@, stmts, fuel as nat) == match exec_stmts(
                    funcs@,
                    entered,
                    stmts,
                    0,
                    fuel as nat,
                ) {
                    (Err(e), after) => (Err(e), after),
                    (Ok(flow), after) => leave_frame(Ok(flow), after),
                },
            decreases body.len() - i,
        {
            match self.interpret_stmt(funcs, &body[i], fuel) {
                Ok(BodyResult::Return(v)) => {
                    return match self.scope.pop_scope() {
                        Ok(()) => Ok(BodyResult::Return(v)),
                        Err(()) => Err(RuntimeError::NoScope),
                    };
                },
                Ok(BodyResult::Fallthrough) => {},
                Err(e) => {
                    return Err(e);
                },
            }
            i = i + 1;
        }
        match self.scope.pop_scope() {
            Ok(()) => Ok(BodyResult::Fallthrough),
            Err(()) => Err(RuntimeError::NoScope),
        }
    }

    /// Executes a statement.
    pub fn interpret_stmt(&mut self, funcs: &ObjRegistry, stmt: &Stmt, fuel: usize) -> (r: Result<
        BodyResult,
        RuntimeError,
    >)
        ensures
            (flow_result(r), final(self)@) == exec_stmt(funcs@, old(self)@, stmt@, fuel as nat),
        decreases fuel, 1nat, stmt, 0nat,
    {
        match stmt {
            Stmt::FnCall(call) => {
                match self.evaluate_call(funcs, &call.name, &call.args, fuel) {
                    Ok(_) => Ok(BodyResult::Fallthrough),
                    Err(e) => Err(e),
                }
            },
            Stmt::Return(ret) => {
                match self.evaluate(funcs, &ret.expr, fuel) {
                    Ok(v) => Ok(BodyResult::Return(v)),
                    Err(e) => Err(e),
                }
            },
            Stmt::If(branch) => {
                let cond = match self.evaluate(funcs, &branch.cond, fuel) {
                    Ok(v) => v,
                    Err(e) => {
                        return Err(e);
                    },
                };
                match cond {
                    Value::Boolean(true) => self.interpret_body(funcs, &branch.body, fuel),
                    Value::Boolean(false) => Ok(BodyResult::Fallthrough),
                    other => Err(wrong_type_error("boolean", &other)),
                }
            },
            Stmt::While(repeat) => {
                let mut remaining: usize = fuel;
                loop
                    invariant
                        remaining <= fuel,
                        stmt matches Stmt::While(w) && w == repeat,
                        exec_stmt(funcs@, old(self)@, stmt@, fuel as nat) == exec_stmt(
                            funcs@,
                            self@,
                            stmt@,
                            remaining as nat,
                        ),
                    decreases remaining,
                {
                    let cond = match self.evaluate(funcs, &repeat.cond, remaining) {
                        Ok(v) => v,
                        Err(e) => {
                            return Err(e);
                        },
                    };
                    match cond {
                        Value::Boolean(true) => {},
                        Value::Boolean(false) => {
                            return Ok(BodyResult::Fallthrough);
                        },
                        other => {
                            return Err(wrong_type_error("boolean", &other));
                        },
                    }
                    match self.interpret_body(funcs, &repeat.body, remaining) {
                        Ok(BodyResult::Fallthrough) => {},
                        Ok(BodyResult::Return(v)) => {
                            return Ok(BodyResult::Return(v));
                        },
                        Err(e) => {
                            return Err(e);
                        },
                    }
                    if remaining == 0 {
                        return Err(RuntimeError::OutOfFuel);
                    }
                    remaining = remaining - 1;
                }
            },
            Stmt::Assign(assignment) => {
                let v = match self.evaluate(funcs, &assignment.val, fuel) {
                    Ok(v) => v,
                    Err(e) => {
                        return Err(e);
                    },
                };
                if !self.scope.has_scope() {
                    return Err(RuntimeError::NoScope);
                }
                match self.scope.assign(&assignment.var, v) {
                    Ok(()) => Ok(BodyResult::Fallthrough),
                    Err(()) => Err(RuntimeError::UndefinedIdentifier(assignment.var.clone())),
                }
            },
            Stmt::Decl(declaration) => {
                let v = match self.evaluate(funcs, &declaration.val, fuel) {
                    Ok(v) => v,
                    Err(e) => {
                        return Err(e);
                    },
                };
                match self.scope.declare(declaration.var.clone(), v) {
                    Ok(()) => Ok(BodyResult::Fallthrough),
                    Err(()) => Err(RuntimeError::NoScope),
                }
            },
        }
    }
}

/// The interpreter: the function table and the state of the run.
#[derive(Debug)]
pub struct Interpreter {
    funcs: ObjRegistry,
    runtime: Runtime,
    budget: usize,
}

impl Interpreter {
    /// The function table.
    pub closed spec fn funcs(&self) -> FuncsView {
        self.funcs@
    }

    /// The state of the run.
    pub closed spec fn state(&self) -> RuntimeView {
        self.runtime@
    }

    /// The budget of each run.
    pub closed spec fn budget(&self) -> nat {
        self.budget as nat
    }

    /// An interpreter with an empty function table, no input, and the largest
    /// budget there is.
    pub fn new() -> (it: Interpreter)
        ensures
            it.funcs() == Map::<Seq<char>, FnObjView>::empty(),
            it.state() == (RuntimeView {
                scopes: Seq::empty(),
                heap: Seq::empty(),
                output: Seq::empty(),
                input: Seq::empty(),
                input_open: false,
            }),
            it.budget() == usize::MAX,
    {
        let input: Vec<String> = Vec::new();
        assert(strings_view(input@) =~= Seq::<Seq<char>>::empty());
        Interpreter {
            funcs: ObjRegistry::new(),
            runtime: Runtime::new(input, false),
            budget: usize::MAX,
        }
    }

    /// An interpreter with an empty function table, `input` as all the lines
    /// that the program may read, and `budget` as the budget of each run.
    pub fn with_input(input: Vec<String>, budget: usize) -> (it: Interpreter)
        ensures
            it.funcs() == Map::<Seq<char>, FnObjView>::empty(),
            it.state() == (RuntimeView {
                scopes: Seq::empty(),
                heap: Seq::empty(),
                output: Seq::empty(),
                input: strings_view(input@),
                input_open: false,
            }),
            it.budget() == budget,
    {
        Interpreter { funcs: ObjRegistry::new(), runtime: Runtime::new(input, false), budget }
    }

    /// An interpreter with an empty function table, `input` as the lines that
    /// are there so far, after which more may follow, and `budget` as the
    /// budget of each run.
    pub fn with_partial_input(input: Vec<String>, budget: usize) -> (it: Interpreter)
        ensures
            it.funcs() == Map::<Seq<char>, FnObjView>::empty(),
            it.state() == (RuntimeView {
                scopes: Seq::empty(),
                heap: Seq::empty(),
                output: Seq::empty(),
                input: strings_view(input@),
                input_open: true,
            }),
            it.budget() == budget,
    {
        Interpreter { funcs: ObjRegistry::new(), runtime: Runtime::new(input, true), budget }
    }

    /// The state of the run.
    pub fn runtime(&self) -> (rt: &Runtime)
        ensures
            rt@ == self.state(),
    {
        &self.runtime
    }

    /// The function table.
    pub fn registry(&self) -> (r: &ObjRegistry)
        ensures
            r@ == self.funcs(),
    {
        &self.funcs
    }

    /// What the program has written.
    pub fn output(&self) -> (s: &String)
        ensures
            s@ == self.state().output,
    {
        self.runtime.output()
    }

    /// Enters the builtin `builtin` under `name`.
    pub fn define_fn(&mut self, name: &str, builtin: Builtin)
        ensures
            final(self).funcs() == old(self).funcs().insert(name@, FnObjView::Builtin(builtin)),
            final(self).state() == old(self).state(),
            final(self).budget() == old(self).budget(),
    {
        self.funcs.register_func(name.to_owned(), FnObj::Builtin(builtin));
    }

    /// Enters every builtin under its name.
    pub fn define_builtins(&mut self)
        ensures
            final(self).funcs() == with_builtins(old(self).funcs()),
            final(self).state() == old(self).state(),
            final(self).budget() == old(self).budget(),
    {
        self.define_fn("print", Builtin::Print);
        self.define_fn("prompt", Builtin::Prompt);
        self.define_fn("input", Builtin::Input);
        self.define_fn("parseint", Builtin::ParseInt);
        self.define_fn("tostring", Builtin::ToString);
        self.define_fn("len", Builtin::Len);
        self.define_fn("get", Builtin::Get);
        self.define_fn("set", Builtin::SetItem);
        self.define_fn("append", Builtin::Append);
    }

    /// Enters a declared function under its name, in place of an earlier
    /// function of that name.
    pub fn interpret_decl(&mut self, decl: Decl)
        ensures
            final(self).funcs() == with_decl(old(self).funcs(), decl@),
            final(self).state() == old(self).state(),
            final(self).budget() == old(self).budget(),
    {
        match decl {
            Decl::FnDecl(f) => {
                self.funcs.register_func(f.name, FnObj::Defined { params: f.params, body: f.body });
            },
        }
    }

    /// Runs a program: enters the builtins and the declarations and calls
    /// `main` with `args` as strings.
    pub fn interpret(&mut self, decls: Vec<Decl>, args: Vec<String>) -> (r: Result<
        (),
        RuntimeError,
    >)
        ensures
            (unit_result(r), final(self).state()) == run_program(
                old(self).funcs(),
                old(self).state(),
                decls_view(decls),
                strings_view(args@),
                old(self).budget(),
            ),
            final(self).funcs() == with_decls(with_builtins(old(self).funcs()), decls_view(decls)),
            final(self).budget() == old(self).budget(),
    {
        let ghost all = decls_view(decls);
        self.define_builtins();
        let ghost base = self.funcs();
        let ghost start = self.state();
        assert(all.take(0) =~= Seq::<DeclView>::empty());
        for decl in it: decls
            invariant
                all == decls_view(decls),
                it.seq() == decls@,
                self.funcs() == with_decls(base, all.take(it.index() as int)),
                self.state() == start,
                self.budget() == old(self).budget(),
        {
            proof {
                let upto = all.take(it.index() + 1);
                assert(upto.drop_last() =~= all.take(it.index() as int));
                assert(upto.last() == decl@);
            }
            self.interpret_decl(decl);
        }
        assert(all.take(decls.len() as int) =~= all);
        let mut values: Vec<Value> = Vec::new();
        let mut i: usize = 0;
        while i < args.len()
            invariant
                i <= args.len(),
                values.len() == i,
                forall|j: int|
                    0 <= j < i ==> (#[trigger] values[j])@ == ValueView::String(args[j]@),
            decreases args.len() - i,
        {
            values.push(Value::String(args[i].clone()));
            i = i + 1;
        }
        assert(values_view(values@) =~= string_values(strings_view(args@)));
        let name = "main".to_owned();
        match self.funcs.get_func(&name) {
            Some(main) => match self.runtime.call_fn(&self.funcs, main, values, self.budget) {
                Ok(_) => Ok(()),
                Err(e) => Err(e),
            },
            None => Err(RuntimeError::UndefinedIdentifier(name)),
        }
    }

    /// Executes a body in a frame of its own.
    pub fn interpret_body(&mut self, body: &Vec<Stmt>) -> (r: Result<BodyResult, RuntimeError>)
        ensures
            (flow_result(r), final(self).state()) == exec_body(
                old(self).funcs(),
                old(self).state(),
                stmts_view(*body),
                old(self).budget(),
            ),
            final(self).funcs() == old(self).funcs(),
            final(self).budget() == old(self).budget(),
    {
        self.runtime.interpret_body(&self.funcs, body, self.budget)
    }

    /// Calls `func` with the arguments `args`. A call with another number of
    /// arguments than the function takes fails before anything else happens.
    pub fn call_fn(&mut self, func: &FnObj, args: Vec<Value>) -> (r: Result<Value, RuntimeError>)
        ensures
            (value_result(r), final(self).state()) == call_fn(
                old(self).funcs(),
                old(self).state(),
                func@,
                values_view(args@),
                old(self).budget(),
            ),
            args.len() != arity(func@) ==> (r matches Err(
                RuntimeError::InvalidArgCount(expected, actual),
            ) && expected == arity(func@) && actual == args.len()) && final(self).state() == old(
                self,
            ).state(),
            final(self).funcs() == old(self).funcs(),
            final(self).budget() == old(self).budget(),
    {
        self.runtime.call_fn(&self.funcs, func, args, self.budget)
    }

    /// Executes a statement.
    pub fn interpret_stmt(&mut self, stmt: &Stmt) -> (r: Result<BodyResult, RuntimeError>)
        ensures
            (flow_result(r), final(self).state()) == exec_stmt(
                old(self).funcs(),
                old(self).state(),
                stmt@,
                old(self).budget(),
            ),
            final(self).funcs() == old(self).funcs(),
            final(self).budget() == old(self).budget(),
    {
        self.runtime.interpret_stmt(&self.funcs, stmt, self.budget)
    }

    /// Evaluates an expression.
    pub fn evaluate(&mut self, expr: &Expr) -> (r: Result<Value, RuntimeError>)
        ensures
            (value_result(r), final(self).state()) == eval_expr(
                old(self).funcs(),
                old(self).state(),
                expr@,
                old(self).budget(),
            ),
            final(self).funcs() == old(self).funcs(),
            final(self).budget() == old(self).budget(),
    {
        self.runtime.evaluate(&self.funcs, expr, self.budget)
    }
}

} // verus!
