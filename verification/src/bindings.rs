//! Named values in the order in which the names first appeared: the fields of
//! an object and the variables of a scope frame. No name appears twice: that
//! is an invariant of the type [`Bindings`], kept by every way to make or to
//! change a value of it.

use vstd::prelude::*;
use crate::value::{Value, ValueView};

verus! {

/// The mathematical content of a [`Bindings`]: pairs of a name and a value.
pub type FieldsView = Seq<(Seq<char>, ValueView)>;

/// The place of the entry that binds `key`: the last one with that name.
pub open spec fn position(f: FieldsView, key: Seq<char>) -> Option<int>
    decreases f.len(),
{
    if f.len() == 0 {
        None
    } else if f.last().0 == key {
        Some(f.len() - 1)
    } else {
        position(f.drop_last(), key)
    }
}

/// The value bound to `key`, if any.
pub open spec fn lookup(f: FieldsView, key: Seq<char>) -> Option<ValueView> {
    match position(f, key) {
        Some(i) => Some(f[i].1),
        None => None,
    }
}

/// Binds `key` to `v`: in place where the name is bound already, else at the end.
pub open spec fn put(f: FieldsView, key: Seq<char>, v: ValueView) -> FieldsView {
    match position(f, key) {
        Some(i) => f.update(i, (key, v)),
        None => f.push((key, v)),
    }
}

/// `f` after binding each entry of `g` in turn, so that `g` wins where both
/// bind a name.
pub open spec fn merged(f: FieldsView, g: FieldsView) -> FieldsView
    decreases g.len(),
{
    if g.len() == 0 {
        f
    } else {
        put(merged(f, g.drop_last()), g.last().0, g.last().1)
    }
}

/// The entries of `f` whose names `g` does not bind, in their order.
pub open spec fn without_keys(f: FieldsView, g: FieldsView) -> FieldsView
    decreases f.len(),
{
    if f.len() == 0 {
        f
    } else if position(g, f.last().0) is Some {
        without_keys(f.drop_last(), g)
    } else {
        without_keys(f.drop_last(), g).push(f.last())
    }
}

/// No name is bound twice.
pub open spec fn distinct_keys(f: FieldsView) -> bool {
    forall|i: int, j: int| 0 <= i < j < f.len() ==> (#[trigger] f[i]).0 != (#[trigger] f[j]).0
}

/// A found position is that of an entry with the name, and no later entry has it.
pub proof fn lemma_position(f: FieldsView, key: Seq<char>)
    ensures
        match position(f, key) {
            Some(i) => 0 <= i < f.len() && f[i].0 == key && forall|j: int|
                i < j < f.len() ==> (#[trigger] f[j]).0 != key,
            None => forall|j: int| 0 <= j < f.len() ==> (#[trigger] f[j]).0 != key,
        },
    decreases f.len(),
{
    if f.len() > 0 && f.last().0 != key {
        lemma_position(f.drop_last(), key);
        assert forall|j: int| 0 <= j < f.len() - 1 implies #[trigger] f[j] == f.drop_last()[j] by {}
    }
}

/// If only entry `i` has the name `key` from `i` on, `i` is its position.
pub proof fn lemma_position_is(f: FieldsView, key: Seq<char>, i: int)
    requires
        0 <= i < f.len(),
        f[i].0 == key,
        forall|j: int| i < j < f.len() ==> (#[trigger] f[j]).0 != key,
    ensures
        position(f, key) == Some(i),
    decreases f.len(),
{
    if i < f.len() - 1 {
        lemma_position_is(f.drop_last(), key, i);
    }
}

/// Whether a name has a position depends only on the names, and so does the place.
pub proof fn lemma_position_same_keys(f: FieldsView, g: FieldsView, key: Seq<char>)
    requires
        f.len() == g.len(),
        forall|j: int| 0 <= j < f.len() ==> (#[trigger] f[j]).0 == (#[trigger] g[j]).0,
    ensures
        position(f, key) == position(g, key),
    decreases f.len(),
{
    if f.len() > 0 {
        assert(f.last().0 == g.last().0);
        if f.last().0 != key {
            lemma_position_same_keys(f.drop_last(), g.drop_last(), key);
        }
    }
}

/// After binding a name, looking it up gives the value bound, and every other
/// name is bound as before.
pub proof fn lemma_put_lookup(f: FieldsView, key: Seq<char>, v: ValueView, other: Seq<char>)
    ensures
        lookup(put(f, key, v), key) == Some(v),
        other != key ==> lookup(put(f, key, v), other) == lookup(f, other),
        put(f, key, v).len() >= f.len(),
{
    lemma_position(f, key);
    lemma_position(f, other);
    let g = put(f, key, v);
    match position(f, key) {
        Some(i) => {
            lemma_position_is(g, key, i);
            if other != key {
                lemma_position_same_keys(f, g, other);
            }
        },
        None => {
            assert(g.drop_last() =~= f);
        },
    }
}

/// Binding a name keeps the names distinct.
pub proof fn lemma_put_distinct(f: FieldsView, key: Seq<char>, v: ValueView)
    requires
        distinct_keys(f),
    ensures
        distinct_keys(put(f, key, v)),
{
    lemma_position(f, key);
}

/// Looking up a name after one more entry was added at the end: the new
/// entry if it has the name, else what was bound before.
pub proof fn lemma_lookup_push(f: FieldsView, entry: (Seq<char>, ValueView), key: Seq<char>)
    ensures
        lookup(f.push(entry), key) == if entry.0 == key {
            Some(entry.1)
        } else {
            lookup(f, key)
        },
{
    assert(f.push(entry).drop_last() =~= f);
    lemma_position(f, key);
}

/// The union is biased to the right: a name that the right operand binds has
/// the value from there, and any other name the value from the left operand.
pub proof fn lemma_merged_lookup(f: FieldsView, g: FieldsView, key: Seq<char>)
    ensures
        lookup(merged(f, g), key) == match lookup(g, key) {
            Some(v) => Some(v),
            None => lookup(f, key),
        },
    decreases g.len(),
{
    if g.len() > 0 {
        let rest = g.drop_last();
        let last = g.last();
        lemma_merged_lookup(f, rest, key);
        lemma_put_lookup(merged(f, rest), last.0, last.1, key);
        assert(rest.push(last) =~= g);
        lemma_lookup_push(rest, last, key);
    }
}

/// The difference goes by name: a name that the right operand binds is not
/// bound in the result, and any other name is bound as in the left operand.
pub proof fn lemma_without_lookup(f: FieldsView, g: FieldsView, key: Seq<char>)
    ensures
        lookup(without_keys(f, g), key) == if position(g, key) is Some {
            None
        } else {
            lookup(f, key)
        },
    decreases f.len(),
{
    if f.len() > 0 {
        let rest = f.drop_last();
        let last = f.last();
        lemma_without_lookup(rest, g, key);
        assert(rest.push(last) =~= f);
        lemma_lookup_push(rest, last, key);
        if position(g, last.0) is None {
            lemma_lookup_push(without_keys(rest, g), last, key);
        }
    }
}

/// The union of two objects without repeated names has none.
pub proof fn lemma_merged_distinct(f: FieldsView, g: FieldsView)
    requires
        distinct_keys(f),
    ensures
        distinct_keys(merged(f, g)),
    decreases g.len(),
{
    if g.len() > 0 {
        lemma_merged_distinct(f, g.drop_last());
        lemma_put_distinct(merged(f, g.drop_last()), g.last().0, g.last().1);
    }
}

/// The difference of bindings without repeated names has none.
pub proof fn lemma_without_distinct(f: FieldsView, g: FieldsView)
    requires
        distinct_keys(f),
    ensures
        distinct_keys(without_keys(f, g)),
    decreases f.len(),
{
    if f.len() > 0 {
        let rest = f.drop_last();
        let last = f.last();
        assert forall|i: int, j: int| 0 <= i < j < rest.len() implies (#[trigger] rest[i]).0 != (
        #[trigger] rest[j]).0 by {
            assert(rest[i] == f[i] && rest[j] == f[j]);
        }
        lemma_without_distinct(rest, g);
        if position(g, last.0) is None {
            lemma_without_lookup(rest, g, last.0);
            assert forall|j: int| 0 <= j < rest.len() implies (#[trigger] rest[j]).0 != last.0 by {
                assert(rest[j] == f[j]);
            }
            lemma_position_absent(rest, last.0);
            lemma_position(without_keys(rest, g), last.0);
        }
    }
}

/// A name that no entry has has no position.
pub proof fn lemma_position_absent(f: FieldsView, key: Seq<char>)
    requires
        forall|j: int| 0 <= j < f.len() ==> (#[trigger] f[j]).0 != key,
    ensures
        position(f, key) is None,
    decreases f.len(),
{
    if f.len() > 0 {
        lemma_position_absent(f.drop_last(), key);
    }
}

/// Named values without a name twice, held in the order in which the names
/// were first bound.
#[derive(Debug)]
pub struct Bindings {
    entries: Vec<(String, Value)>,
}

/// The names and the views of the values of the entries.
spec fn entries_view(entries: Seq<(String, Value)>) -> FieldsView {
    Seq::new(entries.len(), |i: int| (entries[i].0@, entries[i].1@))
}

impl View for Bindings {
    type V = FieldsView;

    closed spec fn view(&self) -> FieldsView {
        entries_view(self.entries@)
    }
}

impl Bindings {
    /// No name is bound twice: this holds of every value of the type.
    #[verifier::type_invariant]
    pub open spec fn names_are_distinct(&self) -> bool {
        distinct_keys(self@)
    }

    /// No bindings.
    pub fn new() -> (b: Bindings)
        ensures
            b@ == Seq::<(Seq<char>, ValueView)>::empty(),
    {
        let b = Bindings { entries: Vec::new() };
        assert(b@ =~= Seq::<(Seq<char>, ValueView)>::empty());
        b
    }

    /// The number of entries.
    pub fn len(&self) -> (n: usize)
        ensures
            n == self@.len(),
    {
        self.entries.len()
    }

    /// The name of entry `i`.
    pub fn name_at(&self, i: usize) -> (name: &String)
        requires
            i < self@.len(),
        ensures
            name@ == self@[i as int].0,
    {
        &self.entries[i].0
    }

    /// The value of entry `i`.
    pub fn value_at(&self, i: usize) -> (v: &Value)
        requires
            i < self@.len(),
        ensures
            v@ == self@[i as int].1,
    {
        &self.entries[i].1
    }

    /// The place of the entry that binds `key`.
    pub fn find(&self, key: &String) -> (r: Option<usize>)
        ensures
            match r {
                Some(i) => position(self@, key@) == Some(i as int) && i < self@.len(),
                None => position(self@, key@) is None,
            },
    {
        let mut i: usize = self.entries.len();
        assert(self@.take(i as int) =~= self@);
        while i > 0
            invariant
                i <= self.entries.len(),
                position(self@, key@) == position(self@.take(i as int), key@),
            decreases i,
        {
            i = i - 1;
            proof {
                let upto = self@.take(i + 1);
                assert(upto.drop_last() =~= self@.take(i as int));
                assert(upto.last() == self@[i as int]);
            }
            if self.entries[i].0 == *key {
                return Some(i);
            }
        }
        None
    }

    /// The value bound to `key`, if any.
    pub fn get(&self, key: &String) -> (r: Option<&Value>)
        ensures
            match r {
                Some(v) => lookup(self@, key@) == Some(v@),
                None => lookup(self@, key@) is None,
            },
    {
        match self.find(key) {
            Some(i) => Some(&self.entries[i].1),
            None => None,
        }
    }

    /// Gives entry `i` a new value.
    pub fn set_at(&mut self, i: usize, v: Value)
        requires
            i < old(self)@.len(),
        ensures
            final(self)@ == old(self)@.update(i as int, (old(self)@[i as int].0, v@)),
            distinct_keys(final(self)@),
    {
        proof {
            use_type_invariant(&*self);
        }
        let ghost before = self@;
        let mut entries: Vec<(String, Value)> = Vec::new();
        core::mem::swap(&mut entries, &mut self.entries);
        entries[i].1 = v;
        proof {
            let after = entries_view(entries@);
            assert(after =~= before.update(i as int, (before[i as int].0, v@)));
            assert forall|j: int, k: int| 0 <= j < k < after.len() implies (#[trigger] after[j]).0
                != (#[trigger] after[k]).0 by {
                assert(after[j].0 == before[j].0 && after[k].0 == before[k].0);
            }
        }
        core::mem::swap(&mut entries, &mut self.entries);
    }

    /// Binds `key` to `v`: in place where the name is bound already, else at
    /// the end.
    pub fn put(&mut self, key: String, v: Value)
        ensures
            final(self)@ == put(old(self)@, key@, v@),
            distinct_keys(final(self)@),
    {
        match self.find(&key) {
            Some(i) => {
                proof {
                    lemma_position(self@, key@);
                }
                self.set_at(i, v);
            },
            None => {
                self.push_entry(key, v);
            },
        }
    }

    /// The same bindings again. Lists and objects among the values are shared
    /// between the two.
    pub fn copy(&self) -> (b: Bindings)
        ensures
            b@ == self@,
            distinct_keys(b@),
    {
        proof {
            use_type_invariant(self);
        }
        let mut entries: Vec<(String, Value)> = Vec::new();
        let mut i: usize = 0;
        while i < self.entries.len()
            invariant
                i <= self.entries.len(),
                entries.len() == i,
                forall|j: int|
                    0 <= j < i ==> (#[trigger] entries[j]).0@ == self.entries[j].0@ && entries[j].1@
                        == self.entries[j].1@,
            decreases self.entries.len() - i,
        {
            entries.push((self.entries[i].0.clone(), self.entries[i].1.copy_shallow()));
            i = i + 1;
        }
        assert(entries_view(entries@) =~= self@);
        Bindings { entries }
    }

    /// These bindings and then those of `other`, which win where both bind a
    /// name.
    pub fn merge(&self, other: &Bindings) -> (b: Bindings)
        ensures
            b@ == merged(self@, other@),
            distinct_keys(b@),
    {
        let mut b = self.copy();
        let mut i: usize = 0;
        while i < other.len()
            invariant
                i <= other@.len(),
                b@ == merged(self@, other@.take(i as int)),
            decreases other@.len() - i,
        {
            proof {
                let upto = other@.take(i + 1);
                assert(upto.drop_last() =~= other@.take(i as int));
                assert(upto.last() == other@[i as int]);
            }
            b.put(other.name_at(i).clone(), other.value_at(i).copy_shallow());
            i = i + 1;
        }
        assert(other@.take(i as int) =~= other@);
        proof {
            use_type_invariant(&b);
        }
        b
    }

    /// The entries whose names `other` does not bind.
    pub fn without(&self, other: &Bindings) -> (b: Bindings)
        ensures
            b@ == without_keys(self@, other@),
            distinct_keys(b@),
    {
        proof {
            use_type_invariant(self);
        }
        let mut b = Bindings::new();
        let mut i: usize = 0;
        while i < self.len()
            invariant
                i <= self@.len(),
                distinct_keys(self@),
                b@ == without_keys(self@.take(i as int), other@),
            decreases self@.len() - i,
        {
            proof {
                let upto = self@.take(i + 1);
                assert(upto.drop_last() =~= self@.take(i as int));
                assert(upto.last() == self@[i as int]);
            }
            if other.find(self.name_at(i)).is_none() {
                proof {
                    let earlier = self@.take(i as int);
                    let name = self@[i as int].0;
                    assert forall|j: int| 0 <= j < earlier.len() implies (#[trigger] earlier[j]).0
                        != name by {
                        assert(earlier[j] == self@[j]);
                    }
                    lemma_position_absent(earlier, name);
                    lemma_without_lookup(earlier, other@, name);
                }
                b.push_entry(self.name_at(i).clone(), self.value_at(i).copy_shallow());
            }
            i = i + 1;
        }
        assert(self@.take(i as int) =~= self@);
        proof {
            use_type_invariant(&b);
        }
        b
    }

    fn push_entry(&mut self, key: String, v: Value)
        requires
            position(old(self)@, key@) is None,
        ensures
            final(self)@ == old(self)@.push((key@, v@)),
            distinct_keys(final(self)@),
    {
        proof {
            use_type_invariant(&*self);
            lemma_position(self@, key@);
        }
        let ghost before = self@;
        let mut entries: Vec<(String, Value)> = Vec::new();
        core::mem::swap(&mut entries, &mut self.entries);
        entries.push((key, v));
        proof {
            let after = entries_view(entries@);
            assert(after =~= before.push((key@, v@)));
            assert forall|j: int, k: int| 0 <= j < k < after.len() implies (#[trigger] after[j]).0
                != (#[trigger] after[k]).0 by {
                if k < before.len() {
                    assert(after[j] == before[j] && after[k] == before[k]);
                } else {
                    assert(after[j] == before[j]);
                }
            }
        }
        core::mem::swap(&mut entries, &mut self.entries);
    }
}

} // verus!
