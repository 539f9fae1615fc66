use tinyscript::bindings::Bindings;
use tinyscript::heap::Heap;
use tinyscript::lexer::TokenKind;
use tinyscript::value::{OperationError, Operator, Value};

fn num(n: i32) -> Value {
    Value::Number(n)
}

fn text(s: &str) -> Value {
    Value::String(s.to_string())
}

fn apply(a: Value, op: Operator, b: Value) -> Result<Value, OperationError> {
    let mut heap = Heap::new();
    let result = a.operate(&b, op, &mut heap);
    assert_eq!(heap.len(), 0);
    result
}

#[test]
fn numbers_add_subtract_and_multiply() {
    assert_eq!(apply(num(2), Operator::Plus, num(3)), Ok(num(5)));
    assert_eq!(apply(num(2), Operator::Minus, num(3)), Ok(num(-1)));
    assert_eq!(apply(num(-4), Operator::Star, num(3)), Ok(num(-12)));
}

#[test]
fn arithmetic_wraps_like_the_machine() {
    assert_eq!(apply(num(i32::MAX), Operator::Plus, num(1)), Ok(num(i32::MIN)));
    assert_eq!(apply(num(i32::MIN), Operator::Minus, num(1)), Ok(num(i32::MAX)));
    assert_eq!(apply(num(i32::MAX), Operator::Star, num(2)), Ok(num(-2)));
    assert_eq!(apply(num(65_536), Operator::Star, num(65_536)), Ok(num(0)));
    for (a, b) in [(i32::MAX, i32::MAX), (i32::MIN, i32::MIN), (123_456_789, -987_654_321), (-1, i32::MIN)] {
        assert_eq!(apply(num(a), Operator::Plus, num(b)), Ok(num(a.wrapping_add(b))));
        assert_eq!(apply(num(a), Operator::Minus, num(b)), Ok(num(a.wrapping_sub(b))));
        assert_eq!(apply(num(a), Operator::Star, num(b)), Ok(num(a.wrapping_mul(b))));
    }
}

#[test]
fn division_rounds_toward_zero() {
    assert_eq!(apply(num(7), Operator::Slash, num(2)), Ok(num(3)));
    assert_eq!(apply(num(-7), Operator::Slash, num(2)), Ok(num(-3)));
    assert_eq!(apply(num(7), Operator::Slash, num(-2)), Ok(num(-3)));
    assert_eq!(apply(num(-7), Operator::Slash, num(-2)), Ok(num(3)));
    assert_eq!(apply(num(0), Operator::Slash, num(-5)), Ok(num(0)));
    assert_eq!(apply(num(i32::MIN), Operator::Slash, num(-1)), Ok(num(i32::MIN)));
    assert_eq!(apply(num(i32::MIN), Operator::Slash, num(1)), Ok(num(i32::MIN)));
    assert_eq!(apply(num(i32::MAX), Operator::Slash, num(-1)), Ok(num(-i32::MAX)));
}

#[test]
fn division_by_zero_fails() {
    assert_eq!(
        apply(num(1), Operator::Slash, num(0)),
        Err(OperationError::InvalidBinary(num(1), Operator::Slash, num(0)))
    );
    assert_eq!(
        apply(num(0), Operator::Slash, num(0)),
        Err(OperationError::InvalidBinary(num(0), Operator::Slash, num(0)))
    );
}

#[test]
fn numbers_compare() {
    assert_eq!(apply(num(1), Operator::LessThan, num(2)), Ok(Value::Boolean(true)));
    assert_eq!(apply(num(2), Operator::LessThan, num(2)), Ok(Value::Boolean(false)));
    assert_eq!(apply(num(3), Operator::GreaterThan, num(2)), Ok(Value::Boolean(true)));
    assert_eq!(apply(num(-3), Operator::GreaterThan, num(2)), Ok(Value::Boolean(false)));
    assert_eq!(apply(num(2), Operator::Equals, num(2)), Ok(Value::Boolean(true)));
    assert_eq!(apply(num(2), Operator::Equals, num(3)), Ok(Value::Boolean(false)));
}

#[test]
fn strings_join_and_compare() {
    assert_eq!(apply(text("ab"), Operator::Plus, text("cd")), Ok(text("abcd")));
    assert_eq!(apply(text(""), Operator::Plus, text("")), Ok(text("")));
    assert_eq!(apply(text("a"), Operator::Equals, text("a")), Ok(Value::Boolean(true)));
    assert_eq!(apply(text("a"), Operator::Equals, text("b")), Ok(Value::Boolean(false)));
}

#[test]
fn booleans_and_null_compare() {
    assert_eq!(
        apply(Value::Boolean(true), Operator::Equals, Value::Boolean(true)),
        Ok(Value::Boolean(true))
    );
    assert_eq!(
        apply(Value::Boolean(true), Operator::Equals, Value::Boolean(false)),
        Ok(Value::Boolean(false))
    );
    assert_eq!(apply(Value::Null, Operator::Equals, Value::Null), Ok(Value::Boolean(true)));
}

#[test]
fn other_combinations_fail_with_operator_and_operands() {
    assert_eq!(
        apply(num(1), Operator::Plus, text("a")),
        Err(OperationError::InvalidBinary(num(1), Operator::Plus, text("a")))
    );
    assert_eq!(
        apply(num(1), Operator::Equals, Value::Boolean(true)),
        Err(OperationError::InvalidBinary(num(1), Operator::Equals, Value::Boolean(true)))
    );
    assert_eq!(
        apply(text("a"), Operator::Minus, text("b")),
        Err(OperationError::InvalidBinary(text("a"), Operator::Minus, text("b")))
    );
    assert_eq!(
        apply(Value::Boolean(true), Operator::LessThan, Value::Boolean(false)),
        Err(OperationError::InvalidBinary(
            Value::Boolean(true),
            Operator::LessThan,
            Value::Boolean(false)
        ))
    );
    assert_eq!(
        apply(Value::Null, Operator::Plus, Value::Null),
        Err(OperationError::InvalidBinary(Value::Null, Operator::Plus, Value::Null))
    );
    assert_eq!(
        apply(Value::Null, Operator::Equals, num(0)),
        Err(OperationError::InvalidBinary(Value::Null, Operator::Equals, num(0)))
    );
}

#[test]
fn negation_is_defined_on_numbers_only() {
    assert_eq!(num(5).operate_unary(Operator::Minus), Ok(num(-5)));
    assert_eq!(num(-5).operate_unary(Operator::Minus), Ok(num(5)));
    assert_eq!(num(0).operate_unary(Operator::Minus), Ok(num(0)));
    assert_eq!(num(i32::MIN).operate_unary(Operator::Minus), Ok(num(i32::MIN)));
    assert_eq!(
        num(5).operate_unary(Operator::Plus),
        Err(OperationError::InvalidUnary(Operator::Plus, num(5)))
    );
    assert_eq!(
        text("a").operate_unary(Operator::Minus),
        Err(OperationError::InvalidUnary(Operator::Minus, text("a")))
    );
}

fn object(heap: &mut Heap, fields: &[(&str, i32)]) -> Value {
    let mut bindings = Bindings::new();
    for (name, n) in fields {
        bindings.put(name.to_string(), num(*n));
    }
    heap.alloc_object(bindings)
}

#[test]
fn objects_unite_with_the_right_one_winning() {
    let mut heap = Heap::new();
    let left = object(&mut heap, &[("a", 1), ("b", 2)]);
    let right = object(&mut heap, &[("b", 20), ("c", 30)]);
    let sum = left.operate(&right, Operator::Plus, &mut heap).unwrap();
    assert_eq!(sum, Value::Object(2));
    assert_eq!(heap.len(), 3);
    assert_eq!(heap.display(&sum, 5), Some("{ a: 1, b: 20, c: 30 }".to_string()));
    assert_eq!(heap.display(&left, 5), Some("{ a: 1, b: 2 }".to_string()));
    assert_eq!(heap.display(&right, 5), Some("{ b: 20, c: 30 }".to_string()));
}

#[test]
fn objects_subtract_by_name() {
    let mut heap = Heap::new();
    let left = object(&mut heap, &[("a", 1), ("b", 2), ("c", 3)]);
    let right = object(&mut heap, &[("b", 0), ("d", 0)]);
    let rest = left.operate(&right, Operator::Minus, &mut heap).unwrap();
    assert_eq!(heap.display(&rest, 5), Some("{ a: 1, c: 3 }".to_string()));
    assert_eq!(heap.display(&left, 5), Some("{ a: 1, b: 2, c: 3 }".to_string()));
    let nothing = left.operate(&left, Operator::Minus, &mut heap).unwrap();
    assert_eq!(heap.display(&nothing, 5), Some("{}".to_string()));
}

#[test]
fn a_united_object_shares_nested_containers() {
    let mut heap = Heap::new();
    let inner = heap.alloc_list(vec![num(1)]);
    let mut fields = Bindings::new();
    fields.put("items".to_string(), inner.copy_shallow());
    let left = heap.alloc_object(fields);
    let right = heap.alloc_object(Bindings::new());
    let sum = left.operate(&right, Operator::Plus, &mut heap).unwrap();
    assert!(heap.list_push(0, num(2)));
    assert_eq!(heap.display(&sum, 5), Some("{ items: [ 1, 2 ] }".to_string()));
    assert_eq!(heap.display(&left, 5), Some("{ items: [ 1, 2 ] }".to_string()));
}

#[test]
fn objects_know_no_other_operator() {
    let mut heap = Heap::new();
    let left = object(&mut heap, &[("a", 1)]);
    let right = object(&mut heap, &[("a", 1)]);
    assert_eq!(
        left.operate(&right, Operator::Equals, &mut heap),
        Err(OperationError::InvalidBinary(Value::Object(0), Operator::Equals, Value::Object(1)))
    );
    assert_eq!(
        left.operate(&right, Operator::Star, &mut heap),
        Err(OperationError::InvalidBinary(Value::Object(0), Operator::Star, Value::Object(1)))
    );
    assert_eq!(heap.len(), 2);
}

#[test]
fn a_handle_without_an_object_does_not_operate() {
    let mut heap = Heap::new();
    let list = heap.alloc_list(vec![]);
    let good = object(&mut heap, &[("a", 1)]);
    assert_eq!(
        Value::Object(0).operate(&good, Operator::Plus, &mut heap),
        Err(OperationError::InvalidBinary(Value::Object(0), Operator::Plus, Value::Object(1)))
    );
    assert_eq!(
        good.operate(&Value::Object(9), Operator::Plus, &mut heap),
        Err(OperationError::InvalidBinary(Value::Object(1), Operator::Plus, Value::Object(9)))
    );
    assert_eq!(list, Value::List(0));
    assert_eq!(heap.len(), 2);
}

#[test]
fn lists_have_no_operators() {
    let mut heap = Heap::new();
    let a = heap.alloc_list(vec![num(1)]);
    let b = heap.alloc_list(vec![num(2)]);
    assert_eq!(
        a.operate(&b, Operator::Plus, &mut heap),
        Err(OperationError::InvalidBinary(Value::List(0), Operator::Plus, Value::List(1)))
    );
}

#[test]
fn values_name_their_type() {
    assert_eq!(num(1).kind_name(), "number");
    assert_eq!(Value::Boolean(true).kind_name(), "boolean");
    assert_eq!(text("x").kind_name(), "string");
    assert_eq!(Value::Object(0).kind_name(), "object");
    assert_eq!(Value::List(0).kind_name(), "list");
    assert_eq!(Value::Null.kind_name(), "null");
}

#[test]
fn a_copy_is_the_same_value() {
    for v in [num(3), Value::Boolean(false), text("abc"), Value::Object(4), Value::List(5), Value::Null] {
        assert_eq!(v.copy_shallow(), v);
    }
}

#[test]
fn operators_bind_by_strength() {
    assert_eq!(Operator::LessThan.get_prec(), 1);
    assert_eq!(Operator::GreaterThan.get_prec(), 1);
    assert_eq!(Operator::Plus.get_prec(), 2);
    assert_eq!(Operator::Minus.get_prec(), 2);
    assert_eq!(Operator::Star.get_prec(), 3);
    assert_eq!(Operator::Slash.get_prec(), 3);
    assert_eq!(Operator::Equals.get_prec(), 0);
}

#[test]
fn token_kinds_map_to_operators() {
    assert_eq!(Operator::try_from(TokenKind::Plus), Ok(Operator::Plus));
    assert_eq!(Operator::try_from(TokenKind::Minus), Ok(Operator::Minus));
    assert_eq!(Operator::try_from(TokenKind::Star), Ok(Operator::Star));
    assert_eq!(Operator::try_from(TokenKind::Slash), Ok(Operator::Slash));
    assert_eq!(Operator::try_from(TokenKind::LessThan), Ok(Operator::LessThan));
    assert_eq!(Operator::try_from(TokenKind::GreaterThan), Ok(Operator::GreaterThan));
    assert_eq!(Operator::try_from(TokenKind::Equals), Err(()));
    assert_eq!(Operator::try_from(TokenKind::Identifier), Err(()));
    assert_eq!(Operator::try_from(TokenKind::EndOfFile), Err(()));
}
