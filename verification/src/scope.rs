//! The scope chain: a stack of frames of variables that follows the nesting of
//! calls and blocks. The innermost frame is the last one.

use vstd::prelude::*;
use crate::bindings::{lemma_position, lookup, position, put, Bindings, FieldsView};
use crate::value::{Value, ValueView};

verus! {

/// The mathematical content of a scope chain: its frames, the innermost last.
pub type ScopesView = Seq<FieldsView>;

/// The value of a variable: that of the innermost frame that binds the name.
pub open spec fn resolve(scopes: ScopesView, key: Seq<char>) -> Option<ValueView>
    decreases scopes.len(),
{
    if scopes.len() == 0 {
        None
    } else {
        match lookup(scopes.last(), key) {
            Some(v) => Some(v),
            None => resolve(scopes.drop_last(), key),
        }
    }
}

/// The chain after giving a variable a new value in the innermost frame that
/// binds the name, or nothing if no frame binds it.
pub open spec fn assign(scopes: ScopesView, key: Seq<char>, v: ValueView) -> Option<ScopesView>
    decreases scopes.len(),
{
    if scopes.len() == 0 {
        None
    } else if position(scopes.last(), key) is Some {
        Some(scopes.update(scopes.len() - 1, put(scopes.last(), key, v)))
    } else {
        match assign(scopes.drop_last(), key, v) {
            Some(rest) => Some(rest.push(scopes.last())),
            None => None,
        }
    }
}

/// The chain after binding a variable in the innermost frame.
pub open spec fn declare(scopes: ScopesView, key: Seq<char>, v: ValueView) -> ScopesView
    recommends
        scopes.len() > 0,
{
    scopes.update(scopes.len() - 1, put(scopes.last(), key, v))
}

/// Where only frame `i` binds the name among the frames from `i` on, assigning
/// changes that frame and no other.
pub proof fn lemma_assign_at(scopes: ScopesView, key: Seq<char>, v: ValueView, i: int)
    requires
        0 <= i < scopes.len(),
        position(scopes[i], key) is Some,
        forall|k: int| i < k < scopes.len() ==> position(#[trigger] scopes[k], key) is None,
    ensures
        assign(scopes, key, v) == Some(scopes.update(i, put(scopes[i], key, v))),
    decreases scopes.len(),
{
    if i < scopes.len() - 1 {
        let rest = scopes.drop_last();
        lemma_assign_at(rest, key, v, i);
        assert(rest.update(i, put(rest[i], key, v)).push(scopes.last()) =~= scopes.update(
            i,
            put(scopes[i], key, v),
        ));
    }
}

/// Where no frame binds the name, there is nothing to assign to.
pub proof fn lemma_assign_none(scopes: ScopesView, key: Seq<char>, v: ValueView)
    requires
        forall|k: int| 0 <= k < scopes.len() ==> position(#[trigger] scopes[k], key) is None,
    ensures
        assign(scopes, key, v) is None,
    decreases scopes.len(),
{
    if scopes.len() > 0 {
        lemma_assign_none(scopes.drop_last(), key, v);
    }
}

/// There is a variable to assign to exactly where the name resolves.
pub proof fn lemma_assign_where_resolved(scopes: ScopesView, key: Seq<char>, v: ValueView)
    ensures
        assign(scopes, key, v) is Some <==> resolve(scopes, key) is Some,
    decreases scopes.len(),
{
    if scopes.len() > 0 {
        lemma_assign_where_resolved(scopes.drop_last(), key, v);
    }
}

/// A variable declared inside a pushed frame is gone once that frame is popped:
/// the chain is what it was before the push, and a name that did not resolve
/// then does not resolve now, although it did in between.
pub proof fn lemma_declared_in_popped_frame(scopes: ScopesView, key: Seq<char>, v: ValueView)
    ensures
        resolve(declare(scopes.push(Seq::empty()), key, v), key) == Some(v),
        declare(scopes.push(Seq::empty()), key, v).drop_last() == scopes,
        resolve(scopes, key) is None ==> resolve(
            declare(scopes.push(Seq::empty()), key, v).drop_last(),
            key,
        ) is None,
{
    let pushed = scopes.push(Seq::empty());
    let inside = declare(pushed, key, v);
    crate::bindings::lemma_put_lookup(pushed.last(), key, v, key);
    assert(inside.drop_last() =~= scopes);
}

/// The frames of variables that are in reach at one point of a run.
#[derive(Debug)]
pub struct Scope {
    innermost: Bindings,
    outer: Vec<Bindings>,
}

impl View for Scope {
    type V = ScopesView;

    closed spec fn view(&self) -> ScopesView {
        Seq::new(self.outer.len() as nat, |i: int| self.outer[i]@).push(self.innermost@)
    }
}

impl Scope {
    fn new(parent: Option<Scope>) -> (s: Scope)
        ensures
            s@ == match parent {
                Some(p) => p@.push(Seq::empty()),
                None => seq![Seq::empty()],
            },
    {
        match parent {
            Some(p) => {
                let Scope { innermost, outer } = p;
                let mut outer = outer;
                outer.push(innermost);
                let s = Scope { innermost: Bindings::new(), outer };
                assert(s@ =~= p@.push(Seq::empty()));
                s
            },
            None => {
                let s = Scope { innermost: Bindings::new(), outer: Vec::new() };
                assert(s@ =~= seq![Seq::empty()]);
                s
            },
        }
    }

    fn into_parent(self) -> (r: Option<Scope>)
        ensures
            self@.len() > 0,
            match r {
                Some(p) => p@ == self@.drop_last(),
                None => self@.len() == 1,
            },
    {
        let Scope { innermost, outer } = self;
        let mut outer = outer;
        match outer.pop() {
            Some(frame) => {
                let p = Scope { innermost: frame, outer };
                assert(p@ =~= self@.drop_last());
                Some(p)
            },
            None => None,
        }
    }

    /// A chain has at least one frame.
    pub proof fn lemma_not_empty(&self)
        ensures
            self@.len() > 0,
    {
    }

    /// The value of the variable `key`.
    pub fn resolve(&self, key: &String) -> (r: Option<&Value>)
        ensures
            match r {
                Some(v) => resolve(self@, key@) == Some(v@),
                None => resolve(self@, key@) is None,
            },
    {
        if let Some(v) = self.innermost.get(key) {
            return Some(v);
        }
        let mut i: usize = self.outer.len();
        assert(self@.drop_last() =~= self@.take(i as int));
        while i > 0
            invariant
                i <= self.outer.len(),
                resolve(self@, key@) == resolve(self@.take(i as int), key@),
            decreases i,
        {
            i = i - 1;
            proof {
                let upto = self@.take(i + 1);
                assert(upto.drop_last() =~= self@.take(i as int));
                assert(upto.last() == self.outer[i as int]@);
            }
            if let Some(v) = self.outer[i].get(key) {
                return Some(v);
            }
        }
        None
    }

    /// Gives the variable `key` the value `v` in the innermost frame that binds
    /// it. Fails, and changes nothing, where no frame binds it.
    pub fn assign(&mut self, key: &String, v: Value) -> (r: Result<(), ()>)
        ensures
            match assign(old(self)@, key@, v@) {
                Some(scopes) => r is Ok && final(self)@ == scopes,
                None => r is Err && final(self)@ == old(self)@,
            },
    {
        let ghost before = self@;
        let ghost top = self.outer.len() as int;
        if let Some(j) = self.innermost.find(key) {
            proof {
                lemma_position(self.innermost@, key@);
            }
            self.innermost.set_at(j, v);
            proof {
                lemma_assign_at(before, key@, v@, top);
                assert(self@ =~= before.update(top, put(before[top], key@, v@)));
            }
            return Ok(());
        }
        let mut i: usize = self.outer.len();
        while i > 0
            invariant
                i <= self.outer.len(),
                self@ == before,
                before == old(self)@,
                top == self.outer.len(),
                before.len() == top + 1,
                forall|k: int|
                    i <= k < before.len() ==> position(#[trigger] before[k], key@) is None,
            decreases i,
        {
            i = i - 1;
            if let Some(j) = self.outer[i].find(key) {
                proof {
                    lemma_position(self.outer[i as int]@, key@);
                    assert(before[i as int] == self.outer[i as int]@);
                }
                let ghost frame = self.outer[i as int]@;
                self.outer[i].set_at(j, v);
                proof {
                    lemma_assign_at(before, key@, v@, i as int);
                    assert(self.outer[i as int]@ == put(frame, key@, v@));
                    assert(self@ =~= before.update(i as int, put(before[i as int], key@, v@)));
                }
                return Ok(());
            }
        }
        proof {
            lemma_assign_none(before, key@, v@);
        }
        Err(())
    }

    /// The value of the variable `var_name`.
    pub fn get(&self, var_name: &str) -> (r: Option<&Value>)
        ensures
            match r {
                Some(v) => resolve(self@, var_name@) == Some(v@),
                None => resolve(self@, var_name@) is None,
            },
    {
        let key = var_name.to_owned();
        self.resolve(&key)
    }

    /// Gives the variable `var_name` the value `new_value` in the innermost
    /// frame that binds it. Fails, and changes nothing, where no frame binds
    /// it: no variable is created.
    pub fn set(&mut self, var_name: &str, new_value: Value) -> (r: Result<(), ()>)
        ensures
            match assign(old(self)@, var_name@, new_value@) {
                Some(scopes) => r is Ok && final(self)@ == scopes,
                None => r is Err && final(self)@ == old(self)@,
            },
    {
        let key = var_name.to_owned();
        self.assign(&key, new_value)
    }

    /// Binds the variable `var_name` to `initial_value` in the innermost frame,
    /// in place of an earlier binding of that frame if there is one. Outer
    /// frames are not touched, so an outer variable of that name is shadowed.
    pub fn declare(&mut self, var_name: String, initial_value: Value)
        ensures
            final(self)@ == declare(old(self)@, var_name@, initial_value@),
    {
        self.innermost.put(var_name, initial_value);
        assert(final(self)@ =~= declare(old(self)@, var_name@, initial_value@));
    }
}

/// Holds the scope chain and pushes and pops its frames.
#[derive(Debug)]
pub struct ScopeManager {
    scope: Option<Scope>,
}

impl View for ScopeManager {
    type V = ScopesView;

    closed spec fn view(&self) -> ScopesView {
        match self.scope {
            Some(s) => s@,
            None => Seq::empty(),
        }
    }
}

impl Default for ScopeManager {
    fn default() -> (m: ScopeManager)
        ensures
            m@ == Seq::<FieldsView>::empty(),
    {
        ScopeManager { scope: None }
    }
}

impl ScopeManager {
    /// A manager without any frame.
    pub fn new() -> (m: ScopeManager)
        ensures
            m@ == Seq::<FieldsView>::empty(),
    {
        ScopeManager { scope: None }
    }

    /// Adds an empty frame as the innermost one.
    pub fn push_scope(&mut self)
        ensures
            final(self)@ == old(self)@.push(Seq::empty()),
    {
        let current = self.scope.take();
        let next = Scope::new(current);
        assert(next@ =~= old(self)@.push(Seq::empty()));
        self.scope = Some(next);
    }

    /// Removes the innermost frame. Fails where there is no frame.
    pub fn pop_scope(&mut self) -> (r: Result<(), ()>)
        ensures
            old(self)@.len() == 0 ==> r is Err && final(self)@ == old(self)@,
            old(self)@.len() > 0 ==> r is Ok && final(self)@ == old(self)@.drop_last(),
    {
        match self.scope.take() {
            Some(current) => {
                let parent = current.into_parent();
                assert(parent is None ==> old(self)@.drop_last() =~= Seq::<FieldsView>::empty());
                self.scope = parent;
                Ok(())
            },
            None => Err(()),
        }
    }

    /// The scope chain, if there is a frame.
    pub fn inner(&self) -> (r: Option<&Scope>)
        ensures
            match r {
                Some(s) => s@ == self@ && self@.len() > 0,
                None => self@.len() == 0,
            },
    {
        self.scope.as_ref()
    }

    /// The scope chain for changing, if there is a frame.
    pub fn inner_mut(&mut self) -> (r: Option<&mut Scope>)
        ensures
            match r {
                Some(s) => s@ == old(self)@ && old(self)@.len() > 0 && final(self)@ == final(s)@,
                None => old(self)@.len() == 0 && final(self)@ == old(self)@,
            },
    {
        self.scope.as_mut()
    }

    /// The value of the variable `key`, if there is a frame and one binds it.
    pub fn resolve(&self, key: &String) -> (r: Option<&Value>)
        ensures
            match r {
                Some(v) => resolve(self@, key@) == Some(v@),
                None => resolve(self@, key@) is None,
            },
    {
        match &self.scope {
            Some(s) => s.resolve(key),
            None => None,
        }
    }

    /// Gives the variable `key` the value `v` in the innermost frame that binds
    /// it. Fails, and changes nothing, where no frame binds it.
    pub fn assign(&mut self, key: &String, v: Value) -> (r: Result<(), ()>)
        ensures
            match assign(old(self)@, key@, v@) {
                Some(scopes) => r is Ok && final(self)@ == scopes,
                None => r is Err && final(self)@ == old(self)@,
            },
    {
        match &mut self.scope {
            Some(s) => s.assign(key, v),
            None => Err(()),
        }
    }

    /// Whether there is a frame.
    pub fn has_scope(&self) -> (b: bool)
        ensures
            b == (self@.len() > 0),
    {
        self.scope.is_some()
    }

    /// Binds the variable `name` to `v` in the innermost frame. Fails, and
    /// changes nothing, where there is no frame.
    pub fn declare(&mut self, name: String, v: Value) -> (r: Result<(), ()>)
        ensures
            old(self)@.len() == 0 ==> r is Err && final(self)@ == old(self)@,
            old(self)@.len() > 0 ==> r is Ok && final(self)@ == declare(old(self)@, name@, v@),
    {
        match &mut self.scope {
            Some(s) => {
                s.declare(name, v);
                Ok(())
            },
            None => Err(()),
        }
    }
}

} // verus!
