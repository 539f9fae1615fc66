use tinyscript::bindings::Bindings;
use tinyscript::value::Value;

fn num(n: i32) -> Value {
    Value::Number(n)
}

fn key(s: &str) -> String {
    s.to_string()
}

fn entries(b: &Bindings) -> Vec<(String, Value)> {
    (0..b.len()).map(|i| (b.name_at(i).clone(), b.value_at(i).copy_shallow())).collect()
}

#[test]
fn new_bindings_are_empty() {
    let b = Bindings::new();
    assert_eq!(b.len(), 0);
    assert_eq!(b.find(&key("a")), None);
    assert_eq!(b.get(&key("a")), None);
}

#[test]
fn a_name_is_bound_at_the_end() {
    let mut b = Bindings::new();
    b.put(key("a"), num(1));
    b.put(key("b"), num(2));
    assert_eq!(entries(&b), vec![(key("a"), num(1)), (key("b"), num(2))]);
    assert_eq!(b.find(&key("a")), Some(0));
    assert_eq!(b.find(&key("b")), Some(1));
    assert_eq!(b.get(&key("b")), Some(&num(2)));
    assert_eq!(b.get(&key("c")), None);
}

#[test]
fn a_bound_name_is_rebound_in_place() {
    let mut b = Bindings::new();
    b.put(key("a"), num(1));
    b.put(key("b"), num(2));
    b.put(key("a"), num(10));
    assert_eq!(entries(&b), vec![(key("a"), num(10)), (key("b"), num(2))]);
    b.set_at(1, num(20));
    assert_eq!(entries(&b), vec![(key("a"), num(10)), (key("b"), num(20))]);
}

#[test]
fn names_are_told_apart_exactly() {
    let mut b = Bindings::new();
    b.put(key("ab"), num(1));
    assert_eq!(b.get(&key("a")), None);
    assert_eq!(b.get(&key("abc")), None);
    assert_eq!(b.get(&key("AB")), None);
    assert_eq!(b.get(&key("")), None);
    assert_eq!(b.get(&key("ab")), Some(&num(1)));
}

#[test]
fn merging_lets_the_second_win() {
    let mut left = Bindings::new();
    left.put(key("a"), num(1));
    left.put(key("b"), num(2));
    let mut right = Bindings::new();
    right.put(key("c"), num(30));
    right.put(key("a"), num(10));
    let merged = left.merge(&right);
    assert_eq!(entries(&merged), vec![(key("a"), num(10)), (key("b"), num(2)), (key("c"), num(30))]);
    assert_eq!(entries(&left), vec![(key("a"), num(1)), (key("b"), num(2))]);
    assert_eq!(entries(&left.merge(&Bindings::new())), entries(&left));
    assert_eq!(entries(&Bindings::new().merge(&right)), entries(&right));
}

#[test]
fn removing_goes_by_name() {
    let mut left = Bindings::new();
    left.put(key("a"), num(1));
    left.put(key("b"), num(2));
    left.put(key("c"), num(3));
    let mut right = Bindings::new();
    right.put(key("b"), num(0));
    assert_eq!(entries(&left.without(&right)), vec![(key("a"), num(1)), (key("c"), num(3))]);
    assert_eq!(entries(&left.without(&left)), vec![]);
    assert_eq!(entries(&left.without(&Bindings::new())), entries(&left));
}

#[test]
fn a_copy_has_the_same_entries() {
    let mut b = Bindings::new();
    b.put(key("a"), Value::List(3));
    b.put(key("b"), Value::String(key("x")));
    assert_eq!(entries(&b.copy()), entries(&b));
}

#[test]
fn no_name_is_bound_twice() {
    let mut left = Bindings::new();
    for name in ["a", "b", "a", "c", "b", "a"] {
        left.put(key(name), num(1));
    }
    let mut right = Bindings::new();
    for name in ["c", "d", "c"] {
        right.put(key(name), num(2));
    }
    for b in [left.copy(), left.merge(&right), right.merge(&left), left.without(&right), right.without(&left)] {
        let names: Vec<String> = (0..b.len()).map(|i| b.name_at(i).clone()).collect();
        for (i, name) in names.iter().enumerate() {
            assert!(!names[..i].contains(name), "{:?}", names);
        }
    }
    assert_eq!(entries(&left), vec![(key("a"), num(1)), (key("b"), num(1)), (key("c"), num(1))]);
}
