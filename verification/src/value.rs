//! Runtime values and the semantics of the operators.
//!
//! Numbers are 32-bit two's-complement integers. Lists and objects are shared:
//! a value of these kinds is a handle into a [`Heap`], and copying the value
//! copies the handle, so that every alias sees every change.

use vstd::prelude::*;
use crate::bindings::{
    distinct_keys, lemma_merged_distinct, lemma_without_distinct, merged, without_keys, Bindings,
    FieldsView,
};
use crate::heap::{object_at, ContainerView, Heap, HeapView};
use crate::lexer::TokenKind;

verus! {

/// The operators of the language.
#[derive(Clone, Copy, PartialEq, Eq, Hash, Debug, Structural)]
pub enum Operator {
    Plus,
    Minus,
    Star,
    Slash,
    Equals,
    LessThan,
    GreaterThan,
}

/// The binary operator that a token kind stands for in an expression, if any.
pub open spec fn operator_of(kind: TokenKind) -> Option<Operator> {
    match kind {
        TokenKind::Plus => Some(Operator::Plus),
        TokenKind::Minus => Some(Operator::Minus),
        TokenKind::Star => Some(Operator::Star),
        TokenKind::Slash => Some(Operator::Slash),
        TokenKind::LessThan => Some(Operator::LessThan),
        TokenKind::GreaterThan => Some(Operator::GreaterThan),
        _ => None,
    }
}

/// Binding strength of an operator: comparisons 1, additive 2, multiplicative 3.
/// An operator with strength 0 never combines.
pub open spec fn precedence(op: Operator) -> nat {
    match op {
        Operator::LessThan | Operator::GreaterThan => 1,
        Operator::Plus | Operator::Minus => 2,
        Operator::Star | Operator::Slash => 3,
        Operator::Equals => 0,
    }
}

impl Operator {
    /// The operator that a token kind stands for, if any.
    pub fn try_from(kind: TokenKind) -> (r: Result<Operator, ()>)
        ensures
            r.is_ok() == operator_of(kind).is_some(),
            r matches Ok(op) ==> operator_of(kind) == Some(op),
    {
        match kind {
            TokenKind::Plus => Ok(Operator::Plus),
            TokenKind::Minus => Ok(Operator::Minus),
            TokenKind::Star => Ok(Operator::Star),
            TokenKind::Slash => Ok(Operator::Slash),
            TokenKind::LessThan => Ok(Operator::LessThan),
            TokenKind::GreaterThan => Ok(Operator::GreaterThan),
            _ => Err(()),
        }
    }

    /// Binding strength of this operator.
    pub fn get_prec(&self) -> (p: usize)
        ensures
            p == precedence(*self),
    {
        match self {
            Operator::LessThan | Operator::GreaterThan => 1,
            Operator::Plus | Operator::Minus => 2,
            Operator::Star | Operator::Slash => 3,
            Operator::Equals => 0,
        }
    }
}

/// A runtime value. `Object` and `List` hold a handle into the heap.
#[derive(Debug, PartialEq, Eq)]
pub enum Value {
    Number(i32),
    Boolean(bool),
    String(String),
    Object(usize),
    List(usize),
    Null,
}

/// The mathematical value that a [`Value`] stands for.
pub enum ValueView {
    Number(i32),
    Boolean(bool),
    String(Seq<char>),
    Object(usize),
    List(usize),
    Null,
}

impl View for Value {
    type V = ValueView;

    open spec fn view(&self) -> ValueView {
        match self {
            Value::Number(n) => ValueView::Number(*n),
            Value::Boolean(b) => ValueView::Boolean(*b),
            Value::String(s) => ValueView::String(s@),
            Value::Object(h) => ValueView::Object(*h),
            Value::List(h) => ValueView::List(*h),
            Value::Null => ValueView::Null,
        }
    }
}

/// The views of a sequence of values.
pub open spec fn values_view(s: Seq<Value>) -> Seq<ValueView> {
    Seq::new(s.len(), |i: int| s[i]@)
}

/// Why an operator could not be applied.
#[derive(Debug, PartialEq, Eq)]
pub enum OperationError {
    InvalidBinary(Value, Operator, Value),
    InvalidUnary(Operator, Value),
}

/// The mathematical content of an [`OperationError`].
pub enum OperationErrorView {
    InvalidBinary(ValueView, Operator, ValueView),
    InvalidUnary(Operator, ValueView),
}

impl View for OperationError {
    type V = OperationErrorView;

    open spec fn view(&self) -> OperationErrorView {
        match self {
            OperationError::InvalidBinary(a, op, b) => OperationErrorView::InvalidBinary(
                a@,
                *op,
                b@,
            ),
            OperationError::InvalidUnary(op, a) => OperationErrorView::InvalidUnary(*op, a@),
        }
    }
}

/// The view of the result of an operation.
pub open spec fn operation_result_view(r: Result<Value, OperationError>) -> Result<
    ValueView,
    OperationErrorView,
> {
    match r {
        Ok(v) => Ok(v@),
        Err(e) => Err(e@),
    }
}

/// The 32-bit two's-complement integer congruent to `n` modulo 2^32.
pub open spec fn wrap_i32(n: int) -> i32 {
    let m = n % 0x1_0000_0000;
    if m > i32::MAX {
        (m - 0x1_0000_0000) as i32
    } else {
        m as i32
    }
}

/// Integer quotient rounded toward zero.
pub open spec fn quotient(a: int, b: int) -> int
    recommends
        b != 0,
{
    if a >= 0 && b > 0 {
        a / b
    } else if a < 0 && b < 0 {
        (-a) / (-b)
    } else if a < 0 {
        -((-a) / b)
    } else {
        -(a / (-b))
    }
}

/// The name of a value's type.
pub open spec fn kind_name_spec(v: ValueView) -> Seq<char> {
    match v {
        ValueView::Number(_) => "number"@,
        ValueView::Boolean(_) => "boolean"@,
        ValueView::String(_) => "string"@,
        ValueView::Object(_) => "object"@,
        ValueView::List(_) => "list"@,
        ValueView::Null => "null"@,
    }
}

/// Unary operators: only the negation of a number is defined, and it wraps.
pub open spec fn operate_unary_spec(a: ValueView, op: Operator) -> Result<
    ValueView,
    OperationErrorView,
> {
    match (op, a) {
        (Operator::Minus, ValueView::Number(x)) => Ok(ValueView::Number(wrap_i32(-(x as int)))),
        _ => Err(OperationErrorView::InvalidUnary(op, a)),
    }
}

/// Binary operators on two numbers. Arithmetic wraps; division by zero fails.
pub open spec fn operate_numbers(x: i32, y: i32, op: Operator) -> Option<ValueView> {
    match op {
        Operator::Plus => Some(ValueView::Number(wrap_i32(x + y))),
        Operator::Minus => Some(ValueView::Number(wrap_i32(x - y))),
        Operator::Star => Some(ValueView::Number(wrap_i32(x * y))),
        Operator::Slash => if y == 0 {
            None
        } else {
            Some(ValueView::Number(wrap_i32(quotient(x as int, y as int))))
        },
        Operator::Equals => Some(ValueView::Boolean(x == y)),
        Operator::LessThan => Some(ValueView::Boolean(x < y)),
        Operator::GreaterThan => Some(ValueView::Boolean(x > y)),
    }
}

/// Binary operators on two objects: `+` is the union of the fields in which the
/// right operand wins, `-` keeps the left fields whose names the right lacks.
pub open spec fn operate_objects(f: FieldsView, g: FieldsView, op: Operator) -> Option<FieldsView> {
    match op {
        Operator::Plus => Some(merged(f, g)),
        Operator::Minus => Some(without_keys(f, g)),
        _ => None,
    }
}

/// The union and the difference of objects without a name twice have none.
pub proof fn lemma_operate_objects_distinct(f: FieldsView, g: FieldsView, op: Operator)
    requires
        distinct_keys(f),
    ensures
        operate_objects(f, g, op) matches Some(fields) ==> distinct_keys(fields),
{
    lemma_merged_distinct(f, g);
    lemma_without_distinct(f, g);
}

/// The operator table: the result of `a op b` and the heap after it. The
/// operations on objects add one container to the heap and change no other;
/// every other operation leaves the heap as it is. A combination that the table
/// lacks fails with the operator and both operands.
pub open spec fn operate_spec(a: ValueView, b: ValueView, op: Operator, heap: HeapView) -> (
    Result<ValueView, OperationErrorView>,
    HeapView,
) {
    let fail = (Err(OperationErrorView::InvalidBinary(a, op, b)), heap);
    match (a, b) {
        (ValueView::Number(x), ValueView::Number(y)) => match operate_numbers(x, y, op) {
            Some(v) => (Ok(v), heap),
            None => fail,
        },
        (ValueView::String(s), ValueView::String(t)) => match op {
            Operator::Plus => (Ok(ValueView::String(s + t)), heap),
            Operator::Equals => (Ok(ValueView::Boolean(s == t)), heap),
            _ => fail,
        },
        (ValueView::Boolean(p), ValueView::Boolean(q)) => match op {
            Operator::Equals => (Ok(ValueView::Boolean(p == q)), heap),
            _ => fail,
        },
        (ValueView::Null, ValueView::Null) => match op {
            Operator::Equals => (Ok(ValueView::Boolean(true)), heap),
            _ => fail,
        },
        (ValueView::Object(h), ValueView::Object(k)) => match (
            object_at(heap, h),
            object_at(heap, k),
        ) {
            (Some(f), Some(g)) => match operate_objects(f, g, op) {
                Some(fields) => (
                    Ok(ValueView::Object(heap.len() as usize)),
                    heap.push(ContainerView::Object(fields)),
                ),
                None => fail,
            },
            _ => fail,
        },
        _ => fail,
    }
}

/// Adding, subtracting and multiplying two numbers gives what the machine's
/// 32-bit arithmetic gives, overflow included; dividing by zero gives no value.
pub proof fn lemma_number_arithmetic(x: i32, y: i32)
    ensures
        operate_numbers(x, y, Operator::Plus) == Some(ValueView::Number(x.wrapping_add(y))),
        operate_numbers(x, y, Operator::Minus) == Some(ValueView::Number(x.wrapping_sub(y))),
        operate_numbers(x, y, Operator::Star) == Some(ValueView::Number(x.wrapping_mul(y))),
        i32::MIN <= x + y <= i32::MAX ==> operate_numbers(x, y, Operator::Plus) == Some(
            ValueView::Number((x + y) as i32),
        ),
        i32::MIN <= x - y <= i32::MAX ==> operate_numbers(x, y, Operator::Minus) == Some(
            ValueView::Number((x - y) as i32),
        ),
        i32::MIN <= x * y <= i32::MAX ==> operate_numbers(x, y, Operator::Star) == Some(
            ValueView::Number((x * y) as i32),
        ),
        operate_numbers(x, 0, Operator::Slash) is None,
{
}

impl Value {
    /// A copy of this value. A list or an object is not duplicated: the copy
    /// holds the same handle and designates the same container.
    pub fn copy_shallow(&self) -> (r: Value)
        ensures
            r@ == self@,
    {
        match self {
            Value::Number(n) => Value::Number(*n),
            Value::Boolean(b) => Value::Boolean(*b),
            Value::String(s) => Value::String(s.clone()),
            Value::Object(h) => Value::Object(*h),
            Value::List(h) => Value::List(*h),
            Value::Null => Value::Null,
        }
    }

    /// The name of this value's type.
    pub fn kind_name(&self) -> (name: &'static str)
        ensures
            name@ == kind_name_spec(self@),
    {
        match self {
            Value::Number(_) => "number",
            Value::Boolean(_) => "boolean",
            Value::String(_) => "string",
            Value::Object(_) => "object",
            Value::List(_) => "list",
            Value::Null => "null",
        }
    }

    /// Applies a unary operator to this value.
    pub fn operate_unary(&self, op: Operator) -> (r: Result<Value, OperationError>)
        ensures
            operation_result_view(r) == operate_unary_spec(self@, op),
    {
        if op == Operator::Minus {
            if let Value::Number(n) = self {
                return Ok(Value::Number((0i32).wrapping_sub(*n)));
            }
        }
        Err(OperationError::InvalidUnary(op, self.copy_shallow()))
    }

    fn apply_to_numbers(x: i32, y: i32, op: Operator) -> (r: Option<Value>)
        ensures
            r.is_some() == operate_numbers(x, y, op).is_some(),
            r matches Some(v) ==> operate_numbers(x, y, op) == Some(v@),
    {
        match op {
            Operator::Plus => Some(Value::Number(x.wrapping_add(y))),
            Operator::Minus => Some(Value::Number(x.wrapping_sub(y))),
            Operator::Star => Some(Value::Number(x.wrapping_mul(y))),
            Operator::Slash => {
                if y == 0 {
                    None
                } else {
                    let a: i64 = x as i64;
                    let b: i64 = y as i64;
                    let ma: i64 = if a < 0 { -a } else { a };
                    let mb: i64 = if b < 0 { -b } else { b };
                    let q: i64 = ma / mb;
                    assert(0 <= q <= ma) by (nonlinear_arith)
                        requires
                            q == ma / mb,
                            ma >= 0,
                            mb > 0,
                    ;
                    let signed: i64 = if (a < 0) != (b < 0) { -q } else { q };
                    assert(signed == quotient(x as int, y as int)) by {
                        assert(a == 0 ==> ma / mb == 0);
                    }
                    let r: i32 = if signed > 0x7fff_ffff { i32::MIN } else { signed as i32 };
                    Some(Value::Number(r))
                }
            },
            Operator::Equals => Some(Value::Boolean(x == y)),
            Operator::LessThan => Some(Value::Boolean(x < y)),
            Operator::GreaterThan => Some(Value::Boolean(x > y)),
        }
    }

    fn apply_to_objects(f: &Bindings, g: &Bindings, op: Operator) -> (r: Option<Bindings>)
        ensures
            r.is_some() == operate_objects(f@, g@, op).is_some(),
            r matches Some(b) ==> operate_objects(f@, g@, op) == Some(b@),
    {
        match op {
            Operator::Plus => Some(f.merge(g)),
            Operator::Minus => Some(f.without(g)),
            _ => None,
        }
    }

    /// Applies a binary operator to this value and `other`. The result of an
    /// operation on two objects is a new object in `heap`.
    pub fn operate(&self, other: &Value, op: Operator, heap: &mut Heap) -> (r: Result<
        Value,
        OperationError,
    >)
        ensures
            (operation_result_view(r), final(heap)@) == operate_spec(
                self@,
                other@,
                op,
                old(heap)@,
            ),
    {
        match (self, other) {
            (Value::Number(x), Value::Number(y)) => {
                if let Some(v) = Self::apply_to_numbers(*x, *y, op) {
                    return Ok(v);
                }
            },
            (Value::String(s), Value::String(t)) => {
                match op {
                    Operator::Plus => {
                        let mut joined = s.clone();
                        joined.append(t.as_str());
                        return Ok(Value::String(joined));
                    },
                    Operator::Equals => {
                        return Ok(Value::Boolean(*s == *t));
                    },
                    _ => {},
                }
            },
            (Value::Boolean(p), Value::Boolean(q)) => {
                if op == Operator::Equals {
                    return Ok(Value::Boolean(*p == *q));
                }
            },
            (Value::Null, Value::Null) => {
                if op == Operator::Equals {
                    return Ok(Value::Boolean(true));
                }
            },
            (Value::Object(h), Value::Object(k)) => {
                let fields = match (heap.object(*h), heap.object(*k)) {
                    (Some(f), Some(g)) => Self::apply_to_objects(f, g, op),
                    _ => None,
                };
                if let Some(b) = fields {
                    return Ok(heap.alloc_object(b));
                }
            },
            _ => {},
        }
        Err(OperationError::InvalidBinary(self.copy_shallow(), op, other.copy_shallow()))
    }
}

} // verus!
