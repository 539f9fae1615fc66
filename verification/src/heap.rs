//! The heap: the containers that list and object values designate.

use vstd::prelude::*;
use crate::bindings::{distinct_keys, Bindings, FieldsView};
use crate::text::{decimal_text, format_i32};
use crate::value::{values_view, Value, ValueView};

verus! {

/// A list or an object in the heap.
#[derive(Debug)]
pub enum Container {
    List(Vec<Value>),
    Object(Bindings),
}

/// The mathematical content of a [`Container`].
pub enum ContainerView {
    List(Seq<ValueView>),
    Object(FieldsView),
}

impl View for Container {
    type V = ContainerView;

    open spec fn view(&self) -> ContainerView {
        match self {
            Container::List(items) => ContainerView::List(values_view(items@)),
            Container::Object(fields) => ContainerView::Object(fields@),
        }
    }
}

/// The mathematical content of a [`Heap`]: the containers by handle.
pub type HeapView = Seq<ContainerView>;

/// The items of the list that `h` designates, if it designates one.
pub open spec fn list_at(heap: HeapView, h: usize) -> Option<Seq<ValueView>> {
    if h < heap.len() {
        match heap[h as int] {
            ContainerView::List(items) => Some(items),
            _ => None,
        }
    } else {
        None
    }
}

/// The fields of the object that `h` designates, if it designates one.
pub open spec fn object_at(heap: HeapView, h: usize) -> Option<FieldsView> {
    if h < heap.len() {
        match heap[h as int] {
            ContainerView::Object(fields) => Some(fields),
            _ => None,
        }
    } else {
        None
    }
}

/// The display form of a value, or nothing where lists and objects are nested
/// more than `depth` deep. Numbers are written in decimal, a list as
/// `[ v1, v2 ]`, an object as `{ k1: v1, k2: v2 }`, and a list or an object
/// without entries as `{}`. A handle that designates no container of its kind
/// displays as one without entries.
pub open spec fn display_spec(heap: HeapView, v: ValueView, depth: nat) -> Option<Seq<char>>
    decreases depth, 0nat, 0nat,
{
    match v {
        ValueView::Number(n) => Some(decimal_text(n as int)),
        ValueView::Boolean(b) => Some(
            if b {
                "true"@
            } else {
                "false"@
            },
        ),
        ValueView::String(s) => Some(s),
        ValueView::Null => Some("null"@),
        ValueView::List(h) => match list_at(heap, h) {
            Some(items) => if items.len() == 0 {
                Some("{}"@)
            } else if depth == 0 {
                None
            } else {
                match display_items(heap, items, 0, (depth - 1) as nat) {
                    Some(body) => Some("[ "@ + body + " ]"@),
                    None => None,
                }
            },
            None => Some("{}"@),
        },
        ValueView::Object(h) => match object_at(heap, h) {
            Some(fields) => if fields.len() == 0 {
                Some("{}"@)
            } else if depth == 0 {
                None
            } else {
                match display_fields(heap, fields, 0, (depth - 1) as nat) {
                    Some(body) => Some("{ "@ + body + " }"@),
                    None => None,
                }
            },
            None => Some("{}"@),
        },
    }
}

/// What separates entry `i` from the one before it.
pub open spec fn separator(i: nat) -> Seq<char> {
    if i == 0 {
        Seq::empty()
    } else {
        ", "@
    }
}

/// The display forms of the items from `i` on, separated by a comma and a space.
pub open spec fn display_items(heap: HeapView, items: Seq<ValueView>, i: nat, depth: nat) -> Option<
    Seq<char>,
>
    decreases depth, 1nat, items.len() - i,
{
    if i >= items.len() {
        Some(Seq::empty())
    } else {
        match (
            display_spec(heap, items[i as int], depth),
            display_items(heap, items, i + 1, depth),
        ) {
            (Some(first), Some(rest)) => Some(separator(i) + first + rest),
            _ => None,
        }
    }
}

/// The display forms of the fields from `i` on, each as `name: value`.
pub open spec fn display_fields(heap: HeapView, fields: FieldsView, i: nat, depth: nat) -> Option<
    Seq<char>,
>
    decreases depth, 1nat, fields.len() - i,
{
    if i >= fields.len() {
        Some(Seq::empty())
    } else {
        match (
            display_spec(heap, fields[i as int].1, depth),
            display_fields(heap, fields, i + 1, depth),
        ) {
            (Some(first), Some(rest)) => Some(
                separator(i) + fields[i as int].0 + ": "@ + first + rest,
            ),
            _ => None,
        }
    }
}

/// The containers of a program. A container never moves and is never removed,
/// so a handle stays valid once given out.
#[derive(Debug)]
pub struct Heap {
    cells: Vec<Container>,
}

impl View for Heap {
    type V = HeapView;

    closed spec fn view(&self) -> HeapView {
        Seq::new(self.cells.len() as nat, |i: int| self.cells[i]@)
    }
}

impl Heap {
    /// An empty heap.
    pub fn new() -> (heap: Heap)
        ensures
            heap@ == Seq::<ContainerView>::empty(),
    {
        let heap = Heap { cells: Vec::new() };
        assert(heap@ =~= Seq::<ContainerView>::empty());
        heap
    }

    /// The number of containers.
    pub fn len(&self) -> (n: usize)
        ensures
            n == self@.len(),
    {
        self.cells.len()
    }

    /// Puts a new list into the heap and returns the value that designates it.
    pub fn alloc_list(&mut self, items: Vec<Value>) -> (v: Value)
        ensures
            final(self)@ == old(self)@.push(ContainerView::List(values_view(items@))),
            v@ == ValueView::List(old(self)@.len() as usize),
    {
        let h = self.cells.len();
        self.cells.push(Container::List(items));
        assert(final(self)@ =~= old(self)@.push(ContainerView::List(values_view(items@))));
        Value::List(h)
    }

    /// Puts a new object into the heap and returns the value that designates it.
    pub fn alloc_object(&mut self, fields: Bindings) -> (v: Value)
        ensures
            final(self)@ == old(self)@.push(ContainerView::Object(fields@)),
            v@ == ValueView::Object(old(self)@.len() as usize),
    {
        let h = self.cells.len();
        self.cells.push(Container::Object(fields));
        assert(final(self)@ =~= old(self)@.push(ContainerView::Object(fields@)));
        Value::Object(h)
    }

    /// The list that `h` designates.
    pub fn list(&self, h: usize) -> (r: Option<&Vec<Value>>)
        ensures
            match r {
                Some(items) => list_at(self@, h) == Some(values_view(items@)),
                None => list_at(self@, h) is None,
            },
    {
        if h < self.cells.len() {
            match &self.cells[h] {
                Container::List(items) => Some(items),
                _ => None,
            }
        } else {
            None
        }
    }

    /// The object that `h` designates. It has no name twice.
    pub fn object(&self, h: usize) -> (r: Option<&Bindings>)
        ensures
            match r {
                Some(fields) => object_at(self@, h) == Some(fields@) && distinct_keys(fields@),
                None => object_at(self@, h) is None,
            },
    {
        if h < self.cells.len() {
            match &self.cells[h] {
                Container::Object(fields) => {
                    proof {
                        use_type_invariant(fields);
                    }
                    Some(fields)
                },
                _ => None,
            }
        } else {
            None
        }
    }

    /// Appends `v` to the list that `h` designates. Returns whether `h`
    /// designates a list; if not, nothing changes.
    pub fn list_push(&mut self, h: usize, v: Value) -> (ok: bool)
        ensures
            ok == list_at(old(self)@, h).is_some(),
            ok ==> final(self)@ == old(self)@.update(
                h as int,
                ContainerView::List(list_at(old(self)@, h).unwrap().push(v@)),
            ),
            !ok ==> final(self)@ == old(self)@,
    {
        if h < self.cells.len() {
            match &mut self.cells[h] {
                Container::List(items) => {
                    items.push(v);
                    assert(values_view(items@) =~= list_at(old(self)@, h).unwrap().push(v@));
                    assert(final(self)@ =~= old(self)@.update(
                        h as int,
                        ContainerView::List(list_at(old(self)@, h).unwrap().push(v@)),
                    ));
                    true
                },
                _ => false,
            }
        } else {
            false
        }
    }

    /// Replaces item `i` of the list that `h` designates. Returns whether `h`
    /// designates a list with an item `i`; if not, nothing changes.
    pub fn list_set(&mut self, h: usize, i: usize, v: Value) -> (ok: bool)
        ensures
            ok == (list_at(old(self)@, h).is_some() && i < list_at(old(self)@, h).unwrap().len()),
            ok ==> final(self)@ == old(self)@.update(
                h as int,
                ContainerView::List(list_at(old(self)@, h).unwrap().update(i as int, v@)),
            ),
            !ok ==> final(self)@ == old(self)@,
    {
        if h < self.cells.len() {
            match &mut self.cells[h] {
                Container::List(items) => {
                    if i < items.len() {
                        items[i] = v;
                        assert(values_view(items@) =~= list_at(old(self)@, h).unwrap().update(
                            i as int,
                            v@,
                        ));
                        assert(final(self)@ =~= old(self)@.update(
                            h as int,
                            ContainerView::List(
                                list_at(old(self)@, h).unwrap().update(i as int, v@),
                            ),
                        ));
                        true
                    } else {
                        false
                    }
                },
                _ => false,
            }
        } else {
            false
        }
    }

    /// The display form of `v`, or nothing where lists and objects are nested
    /// more than `depth` deep.
    pub fn display(&self, v: &Value, depth: usize) -> (r: Option<String>)
        ensures
            match r {
                Some(s) => display_spec(self@, v@, depth as nat) == Some(s@),
                None => display_spec(self@, v@, depth as nat) is None,
            },
        decreases depth, 0nat,
    {
        match v {
            Value::Number(n) => Some(format_i32(*n)),
            Value::Boolean(b) => Some(
                if *b {
                    "true".to_owned()
                } else {
                    "false".to_owned()
                },
            ),
            Value::String(s) => Some(s.clone()),
            Value::Null => Some("null".to_owned()),
            Value::List(h) => match self.list(*h) {
                Some(items) => {
                    if items.len() == 0 {
                        Some("{}".to_owned())
                    } else if depth == 0 {
                        None
                    } else {
                        match self.display_items(items, depth - 1) {
                            Some(body) => {
                                let mut out = "[ ".to_owned();
                                out.append(body.as_str());
                                out.append(" ]");
                                Some(out)
                            },
                            None => None,
                        }
                    }
                },
                None => Some("{}".to_owned()),
            },
            Value::Object(h) => match self.object(*h) {
                Some(fields) => {
                    if fields.len() == 0 {
                        Some("{}".to_owned())
                    } else if depth == 0 {
                        None
                    } else {
                        match self.display_fields(fields, depth - 1) {
                            Some(body) => {
                                let mut out = "{ ".to_owned();
                                out.append(body.as_str());
                                out.append(" }");
                                Some(out)
                            },
                            None => None,
                        }
                    }
                },
                None => Some("{}".to_owned()),
            },
        }
    }

    fn display_items(&self, items: &Vec<Value>, depth: usize) -> (r: Option<String>)
        ensures
            match r {
                Some(s) => display_items(self@, values_view(items@), 0, depth as nat) == Some(s@),
                None => display_items(self@, values_view(items@), 0, depth as nat) is None,
            },
        decreases depth, 1nat,
    {
        let ghost all = values_view(items@);
        let mut out = String::new();
        let mut i: usize = 0;
        assert(Seq::<char>::empty() + Seq::<char>::empty() =~= Seq::<char>::empty());
        while i < items.len()
            invariant
                i <= items.len(),
                all == values_view(items@),
                display_items(self@, all, 0, depth as nat) == match display_items(
                    self@,
                    all,
                    i as nat,
                    depth as nat,
                ) {
                    Some(rest) => Some(out@ + rest),
                    None => None,
                },
            decreases items.len() - i,
        {
            let ghost before = out@;
            match self.display(&items[i], depth) {
                Some(s) => {
                    if i > 0 {
                        out.append(", ");
                    }
                    out.append(s.as_str());
                    proof {
                        assert(out@ == before + separator(i as nat) + s@) by {
                            assert(before + Seq::<char>::empty() =~= before);
                        }
                        match display_items(self@, all, (i + 1) as nat, depth as nat) {
                            Some(rest) => {
                                assert(before + (separator(i as nat) + s@ + rest) =~= out@ + rest);
                            },
                            None => {},
                        }
                    }
                },
                None => {
                    return None;
                },
            }
            i = i + 1;
        }
        assert(out@ + Seq::<char>::empty() =~= out@);
        Some(out)
    }

    fn display_fields(&self, fields: &Bindings, depth: usize) -> (r: Option<String>)
        ensures
            match r {
                Some(s) => display_fields(self@, fields@, 0, depth as nat) == Some(s@),
                None => display_fields(self@, fields@, 0, depth as nat) is None,
            },
        decreases depth, 1nat,
    {
        let mut out = String::new();
        let mut i: usize = 0;
        assert(Seq::<char>::empty() + Seq::<char>::empty() =~= Seq::<char>::empty());
        while i < fields.len()
            invariant
                i <= fields@.len(),
                display_fields(self@, fields@, 0, depth as nat) == match display_fields(
                    self@,
                    fields@,
                    i as nat,
                    depth as nat,
                ) {
                    Some(rest) => Some(out@ + rest),
                    None => None,
                },
            decreases fields@.len() - i,
        {
            let ghost before = out@;
            match self.display(fields.value_at(i), depth) {
                Some(s) => {
                    if i > 0 {
                        out.append(", ");
                    }
                    out.append(fields.name_at(i).as_str());
                    out.append(": ");
                    out.append(s.as_str());
                    proof {
                        let name = fields@[i as int].0;
                        assert(out@ == before + separator(i as nat) + name + ": "@ + s@) by {
                            assert(before + Seq::<char>::empty() =~= before);
                        }
                        match display_fields(self@, fields@, (i + 1) as nat, depth as nat) {
                            Some(rest) => {
                                assert(before + (separator(i as nat) + name + ": "@ + s@ + rest)
                                    =~= out@ + rest);
                            },
                            None => {},
                        }
                    }
                },
                None => {
                    return None;
                },
            }
            i = i + 1;
        }
        assert(out@ + Seq::<char>::empty() =~= out@);
        Some(out)
    }
}

} // verus!
