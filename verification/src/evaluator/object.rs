//! The values of the language at run time, and how they are printed.

use crate::ast::{block_view, copy_block, copy_idents, idents_view, BlockStmt, Ident, StmtV};
use crate::text::{int_text, push_int, push_quoted, quoted};
use vstd::prelude::*;
use vstd::string::StringExecFns;

verus! {

/// A function that is built into the interpreter or lent to it by its host.
#[derive(Debug, PartialEq)]
pub enum Native {
    /// The length of a string in bytes, or of an array.
    Len,
    /// The first item of an array.
    First,
    /// The last item of an array.
    Last,
    /// An array without its first item.
    Rest,
    /// An array with one more item at its end.
    Push,
    /// Whether two values are printed alike.
    DeepEqual,
    /// A capability of the host, by its name.
    Host(String),
}

/// The value of a [`Native`].
pub enum NativeV {
    Len,
    First,
    Last,
    Rest,
    Push,
    DeepEqual,
    Host(Seq<char>),
}

impl View for Native {
    type V = NativeV;

    open spec fn view(&self) -> NativeV {
        match self {
            Native::Len => NativeV::Len,
            Native::First => NativeV::First,
            Native::Last => NativeV::Last,
            Native::Rest => NativeV::Rest,
            Native::Push => NativeV::Push,
            Native::DeepEqual => NativeV::DeepEqual,
            Native::Host(name) => NativeV::Host(name@),
        }
    }
}

impl Clone for Native {
    fn clone(&self) -> (r: Self)
        ensures
            r@ == self@,
    {
        match self {
            Native::Len => Native::Len,
            Native::First => Native::First,
            Native::Last => Native::Last,
            Native::Rest => Native::Rest,
            Native::Push => Native::Push,
            Native::DeepEqual => Native::DeepEqual,
            Native::Host(name) => Native::Host(name.clone()),
        }
    }
}

/// A value at run time.
#[derive(Debug, PartialEq)]
pub enum Object {
    Int(i64),
    String(String),
    Bool(bool),
    Array(Vec<Object>),
    /// The pairs of a hash, in the order in which their keys came in; no
    /// two pairs have the same key.
    Hash(Vec<(Object, Object)>),
    /// A closure: parameters, body, and the scope in which it was made.
    Function(Vec<Ident>, BlockStmt, usize),
    /// A native function with its arity; a negative arity takes any number
    /// of arguments.
    Builtin(i32, Native),
    ReturnValue(Box<Object>),
    BreakStatement,
    ContinueStatement,
    Error(String),
    Null,
}

/// The value of an [`Object`].
pub enum ObjectV {
    Int(i64),
    String(Seq<char>),
    Bool(bool),
    Array(Seq<ObjectV>),
    Hash(Seq<(ObjectV, ObjectV)>),
    Function(Seq<Seq<char>>, Seq<StmtV>, nat),
    Builtin(i32, NativeV),
    ReturnValue(Box<ObjectV>),
    BreakStatement,
    ContinueStatement,
    Error(Seq<char>),
    Null,
}

/// The values of a list of objects, in order.
pub open spec fn objects_view(v: Vec<Object>) -> Seq<ObjectV>
    decreases v,
{
    Seq::new(
        v.len() as nat,
        |i: int|
            if 0 <= i < v.len() {
                v[i]@
            } else {
                arbitrary()
            },
    )
}

/// The values of a list of pairs of objects, in order.
pub open spec fn entries_view(v: Vec<(Object, Object)>) -> Seq<(ObjectV, ObjectV)>
    decreases v,
{
    Seq::new(
        v.len() as nat,
        |i: int|
            if 0 <= i < v.len() {
                (v[i].0@, v[i].1@)
            } else {
                arbitrary()
            },
    )
}

impl Object {
    pub open spec fn view(&self) -> ObjectV
        decreases self,
    {
        match self {
            Object::Int(i) => ObjectV::Int(*i),
            Object::String(s) => ObjectV::String(s@),
            Object::Bool(b) => ObjectV::Bool(*b),
            Object::Array(v) => ObjectV::Array(objects_view(*v)),
            Object::Hash(v) => ObjectV::Hash(entries_view(*v)),
            Object::Function(params, body, env) => ObjectV::Function(
                idents_view(*params),
                block_view(*body),
                *env as nat,
            ),
            Object::Builtin(arity, f) => ObjectV::Builtin(*arity, f@),
            Object::ReturnValue(o) => ObjectV::ReturnValue(Box::new(o@)),
            Object::BreakStatement => ObjectV::BreakStatement,
            Object::ContinueStatement => ObjectV::ContinueStatement,
            Object::Error(m) => ObjectV::Error(m@),
            Object::Null => ObjectV::Null,
        }
    }
}

/// A copy of a list of objects.
#[verifier::loop_isolation(false)]
pub fn copy_objects(v: &Vec<Object>) -> (r: Vec<Object>)
    ensures
        objects_view(r) == objects_view(*v),
    decreases v,
{
    let mut out: Vec<Object> = Vec::new();
    let mut i: usize = 0;
    while i < v.len()
        invariant
            i <= v.len(),
            out.len() == i,
            forall|j: int| 0 <= j < i ==> out[j]@ == v[j]@,
        decreases v.len() - i,
    {
        out.push(copy_object(&v[i]));
        i = i + 1;
    }
    assert(objects_view(out) =~= objects_view(*v));
    out
}

/// A copy of a list of pairs of objects.
#[verifier::loop_isolation(false)]
pub fn copy_entries(v: &Vec<(Object, Object)>) -> (r: Vec<(Object, Object)>)
    ensures
        entries_view(r) == entries_view(*v),
    decreases v,
{
    let mut out: Vec<(Object, Object)> = Vec::new();
    let mut i: usize = 0;
    while i < v.len()
        invariant
            i <= v.len(),
            out.len() == i,
            forall|j: int| 0 <= j < i ==> out[j].0@ == v[j].0@ && out[j].1@ == v[j].1@,
        decreases v.len() - i,
    {
        let k = copy_object(&v[i].0);
        let w = copy_object(&v[i].1);
        out.push((k, w));
        i = i + 1;
    }
    assert(entries_view(out) =~= entries_view(*v));
    out
}

/// A copy of an object.
pub fn copy_object(o: &Object) -> (r: Object)
    ensures
        r@ == o@,
    decreases o,
{
    match o {
        Object::Int(i) => Object::Int(*i),
        Object::String(s) => Object::String(s.clone()),
        Object::Bool(b) => Object::Bool(*b),
        Object::Array(v) => Object::Array(copy_objects(v)),
        Object::Hash(v) => Object::Hash(copy_entries(v)),
        Object::Function(params, body, env) => Object::Function(
            copy_idents(params),
            copy_block(body),
            *env,
        ),
        Object::Builtin(arity, f) => Object::Builtin(*arity, f.clone()),
        Object::ReturnValue(v) => Object::ReturnValue(Box::new(copy_object(v))),
        Object::BreakStatement => Object::BreakStatement,
        Object::ContinueStatement => Object::ContinueStatement,
        Object::Error(m) => Object::Error(m.clone()),
        Object::Null => Object::Null,
    }
}

impl Clone for Object {
    fn clone(&self) -> (r: Self)
        ensures
            r@ == self@,
    {
        copy_object(self)
    }
}

/// The separator before the item at place `i` of a list: none before the
/// first, a comma and a space before the others.
pub open spec fn separator(i: nat) -> Seq<char> {
    if i == 0 {
        Seq::empty()
    } else {
        ", "@
    }
}

/// The names from place `i` on, separated by commas.
pub open spec fn display_names(names: Seq<Seq<char>>, i: nat) -> Seq<char>
    decreases names.len() - i,
{
    if i >= names.len() {
        Seq::empty()
    } else {
        separator(i) + names[i as int] + display_names(names, i + 1)
    }
}

/// The items from place `i` on as they are printed, separated by commas.
pub open spec fn display_items(items: Seq<ObjectV>, i: nat) -> Seq<char>
    decreases items, items.len() - i,
{
    if i >= items.len() {
        Seq::empty()
    } else {
        separator(i) + display(items[i as int]) + display_items(items, i + 1)
    }
}

/// The pairs from place `i` on as they are printed: key, colon, value,
/// separated by commas.
pub open spec fn display_pairs(pairs: Seq<(ObjectV, ObjectV)>, i: nat) -> Seq<char>
    decreases pairs, pairs.len() - i,
{
    if i >= pairs.len() {
        Seq::empty()
    } else {
        separator(i) + display(pairs[i as int].0) + ": "@ + display(pairs[i as int].1)
            + display_pairs(pairs, i + 1)
    }
}

/// A value as it is printed.
pub open spec fn display(o: ObjectV) -> Seq<char>
    decreases o, 0nat,
{
    match o {
        ObjectV::Int(i) => int_text(i as int),
        ObjectV::String(s) => quoted(s),
        ObjectV::Bool(b) => if b {
            "true"@
        } else {
            "false"@
        },
        ObjectV::Array(items) => "["@ + display_items(items, 0) + "]"@,
        ObjectV::Hash(pairs) => "{"@ + display_pairs(pairs, 0) + "}"@,
        ObjectV::Function(params, _, _) => "fn("@ + display_names(params, 0) + ") { ... }"@,
        ObjectV::Builtin(_, _) => "[builtin function]"@,
        ObjectV::ReturnValue(v) => "ReturnValue("@ + display(*v) + ")"@,
        ObjectV::BreakStatement => "BreakStatement"@,
        ObjectV::ContinueStatement => "ContinueStatement"@,
        ObjectV::Error(m) => "Error("@ + m + ")"@,
        ObjectV::Null => "null"@,
    }
}

/// Appends `o`, as it is printed, to `s`.
#[verifier::loop_isolation(false)]
pub fn push_display(s: &mut String, o: &Object)
    ensures
        final(s)@ == old(s)@ + display(o@),
    decreases o,
{
    match o {
        Object::Int(i) => {
            push_int(s, *i);
        },
        Object::String(value) => {
            push_quoted(s, value.as_str());
        },
        Object::Bool(b) => {
            if *b {
                s.append("true");
            } else {
                s.append("false");
            }
        },
        Object::Array(objects) => {
            s.append("[");
            let ghost items = objects_view(*objects);
            let mut i: usize = 0;
            while i < objects.len()
                invariant
                    i <= objects.len(),
                    s@ + display_items(items, i as nat) == old(s)@ + "["@ + display_items(items, 0),
                decreases objects.len() - i,
            {
                let ghost before = s@;
                if i >= 1 {
                    s.append(", ");
                }
                push_display(s, &objects[i]);
                assert(s@ =~= before + (separator(i as nat) + display(items[i as int])));
                assert(s@ + display_items(items, (i + 1) as nat) =~= before + display_items(
                    items,
                    i as nat,
                ));
                i = i + 1;
            }
            s.append("]");
            assert(s@ =~= old(s)@ + display(o@));
        },
        Object::Hash(hash) => {
            s.append("{");
            let ghost pairs = entries_view(*hash);
            let mut i: usize = 0;
            while i < hash.len()
                invariant
                    i <= hash.len(),
                    s@ + display_pairs(pairs, i as nat) == old(s)@ + "{"@ + display_pairs(pairs, 0),
                decreases hash.len() - i,
            {
                let ghost before = s@;
                if i >= 1 {
                    s.append(", ");
                }
                push_display(s, &hash[i].0);
                s.append(": ");
                push_display(s, &hash[i].1);
                assert(s@ =~= before + (separator(i as nat) + display(pairs[i as int].0) + ": "@
                    + display(pairs[i as int].1)));
                assert(s@ + display_pairs(pairs, (i + 1) as nat) =~= before + display_pairs(
                    pairs,
                    i as nat,
                ));
                i = i + 1;
            }
            s.append("}");
            assert(s@ =~= old(s)@ + display(o@));
        },
        Object::Function(params, _, _) => {
            s.append("fn(");
            let ghost names = idents_view(*params);
            let mut i: usize = 0;
            while i < params.len()
                invariant
                    i <= params.len(),
                    s@ + display_names(names, i as nat) == old(s)@ + "fn("@ + display_names(
                        names,
                        0,
                    ),
                decreases params.len() - i,
            {
                let ghost before = s@;
                if i >= 1 {
                    s.append(", ");
                }
                s.append(params[i].0.as_str());
                assert(s@ =~= before + (separator(i as nat) + names[i as int]));
                assert(s@ + display_names(names, (i + 1) as nat) =~= before + display_names(
                    names,
                    i as nat,
                ));
                i = i + 1;
            }
            s.append(") { ... }");
            assert(s@ =~= old(s)@ + display(o@));
        },
        Object::Builtin(_, _) => {
            s.append("[builtin function]");
        },
        Object::ReturnValue(value) => {
            s.append("ReturnValue(");
            push_display(s, value);
            s.append(")");
            assert(s@ =~= old(s)@ + display(o@));
        },
        Object::BreakStatement => {
            s.append("BreakStatement");
        },
        Object::ContinueStatement => {
            s.append("ContinueStatement");
        },
        Object::Error(value) => {
            s.append("Error(");
            s.append(value.as_str());
            s.append(")");
            assert(s@ =~= old(s)@ + display(o@));
        },
        Object::Null => {
            s.append("null");
        },
    }
}

impl Object {
    /// The value as it is printed.
    pub fn to_text(&self) -> (r: String)
        ensures
            r@ == display(self@),
    {
        let mut s = String::new();
        push_display(&mut s, self);
        assert(Seq::<char>::empty() + display(self@) =~= display(self@));
        s
    }
}

} // verus!
