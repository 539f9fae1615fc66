//! The function table: the builtin and the user-defined functions by name.

use vstd::prelude::*;
use crate::syntax::{strings_view, stmts_view, Stmt, StmtView};

verus! {

/// The functions that the language provides.
#[derive(Clone, Copy, PartialEq, Eq, Hash, Debug, Structural)]
pub enum Builtin {
    /// `print(v)` writes the display form of `v` and a line feed.
    Print,
    /// `prompt(msg)` writes `msg` and reads a line.
    Prompt,
    /// `input()` reads a line.
    Input,
    /// `parseint(s)` reads a string as a decimal integer.
    ParseInt,
    /// `tostring(v)` is the display form of `v`.
    ToString,
    /// `len(list)` is the number of items of a list.
    Len,
    /// `get(list, i)` is item `i` of a list.
    Get,
    /// `set(list, i, v)` replaces item `i` of a list.
    SetItem,
    /// `append(list, v)` adds an item at the end of a list.
    Append,
}

/// The number of arguments that a builtin takes.
pub open spec fn builtin_arity(b: Builtin) -> nat {
    match b {
        Builtin::Input => 0,
        Builtin::Print
        | Builtin::Prompt
        | Builtin::ParseInt
        | Builtin::ToString
        | Builtin::Len => 1,
        Builtin::Get | Builtin::Append => 2,
        Builtin::SetItem => 3,
    }
}

/// The name under which a builtin is known to programs.
pub open spec fn builtin_name(b: Builtin) -> Seq<char> {
    match b {
        Builtin::Print => "print"@,
        Builtin::Prompt => "prompt"@,
        Builtin::Input => "input"@,
        Builtin::ParseInt => "parseint"@,
        Builtin::ToString => "tostring"@,
        Builtin::Len => "len"@,
        Builtin::Get => "get"@,
        Builtin::SetItem => "set"@,
        Builtin::Append => "append"@,
    }
}

impl Builtin {
    /// The number of arguments that this builtin takes.
    pub fn arity(&self) -> (n: usize)
        ensures
            n == builtin_arity(*self),
    {
        match self {
            Builtin::Input => 0,
            Builtin::Print
            | Builtin::Prompt
            | Builtin::ParseInt
            | Builtin::ToString
            | Builtin::Len => 1,
            Builtin::Get | Builtin::Append => 2,
            Builtin::SetItem => 3,
        }
    }

    /// The name under which this builtin is known to programs.
    pub fn name(&self) -> (s: &'static str)
        ensures
            s@ == builtin_name(*self),
    {
        match self {
            Builtin::Print => "print",
            Builtin::Prompt => "prompt",
            Builtin::Input => "input",
            Builtin::ParseInt => "parseint",
            Builtin::ToString => "tostring",
            Builtin::Len => "len",
            Builtin::Get => "get",
            Builtin::SetItem => "set",
            Builtin::Append => "append",
        }
    }
}

/// An entry of the function table.
#[derive(Debug)]
pub enum FnObj {
    Builtin(Builtin),
    Defined { params: Vec<String>, body: Vec<Stmt> },
}

/// The mathematical content of a [`FnObj`].
pub enum FnObjView {
    Builtin(Builtin),
    Defined { params: Seq<Seq<char>>, body: Seq<StmtView> },
}

impl View for FnObj {
    type V = FnObjView;

    open spec fn view(&self) -> FnObjView {
        match self {
            FnObj::Builtin(b) => FnObjView::Builtin(*b),
            FnObj::Defined { params, body } => FnObjView::Defined {
                params: strings_view(params@),
                body: stmts_view(*body),
            },
        }
    }
}

/// The number of arguments that a function takes.
pub open spec fn arity(f: FnObjView) -> nat {
    match f {
        FnObjView::Builtin(b) => builtin_arity(b),
        FnObjView::Defined { params, body } => params.len(),
    }
}

impl FnObj {
    /// The number of arguments that this function takes.
    pub fn param_count(&self) -> (n: usize)
        ensures
            n == arity(self@),
    {
        match self {
            FnObj::Builtin(b) => b.arity(),
            FnObj::Defined { params, .. } => params.len(),
        }
    }
}

/// The mathematical content of an [`ObjRegistry`]: the functions by name.
pub type FuncsView = Map<Seq<char>, FnObjView>;

/// The table that a sequence of registrations builds: a later one replaces an
/// earlier one of the same name.
pub open spec fn table_of(entries: Seq<(Seq<char>, FnObjView)>) -> FuncsView
    decreases entries.len(),
{
    if entries.len() == 0 {
        Map::empty()
    } else {
        table_of(entries.drop_last()).insert(entries.last().0, entries.last().1)
    }
}

/// The function table.
#[derive(Debug)]
pub struct ObjRegistry {
    funcs: Vec<(String, FnObj)>,
}

impl ObjRegistry {
    spec fn entries(&self) -> Seq<(Seq<char>, FnObjView)> {
        Seq::new(self.funcs.len() as nat, |i: int| (self.funcs[i].0@, self.funcs[i].1@))
    }
}

impl View for ObjRegistry {
    type V = FuncsView;

    closed spec fn view(&self) -> FuncsView {
        table_of(self.entries())
    }
}

impl ObjRegistry {
    /// An empty table.
    pub fn new() -> (r: ObjRegistry)
        ensures
            r@ == Map::<Seq<char>, FnObjView>::empty(),
    {
        ObjRegistry { funcs: Vec::new() }
    }

    /// Enters `func` under `name`, in place of an earlier function of that name.
    pub fn register_func(&mut self, name: String, func: FnObj)
        ensures
            final(self)@ == old(self)@.insert(name@, func@),
    {
        self.funcs.push((name, func));
        assert(final(self).entries().drop_last() =~= old(self).entries());
    }

    /// The function entered under `name`, if any.
    pub fn get_func(&self, name: &String) -> (r: Option<&FnObj>)
        ensures
            match r {
                Some(f) => self@.contains_key(name@) && self@[name@] == f@,
                None => !self@.contains_key(name@),
            },
    {
        let ghost all = self.entries();
        let mut i: usize = self.funcs.len();
        assert(all.take(i as int) =~= all);
        while i > 0
            invariant
                i <= self.funcs.len(),
                all == self.entries(),
                table_of(all).contains_key(name@) == table_of(all.take(i as int)).contains_key(
                    name@,
                ),
                table_of(all).contains_key(name@) ==> table_of(all)[name@] == table_of(
                    all.take(i as int),
                )[name@],
            decreases i,
        {
            i = i - 1;
            proof {
                let upto = all.take(i + 1);
                assert(upto.drop_last() =~= all.take(i as int));
                assert(upto.last() == all[i as int]);
            }
            if self.funcs[i].0 == *name {
                return Some(&self.funcs[i].1);
            }
        }
        None
    }
}

} // verus!
