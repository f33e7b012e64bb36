//! The native functions that a fresh environment holds, by name, and what
//! the library offers to a host for the capabilities it lends.

use crate::evaluator::env::bindings_view;
use crate::evaluator::object::{Native, NativeV, Object, ObjectV};
use vstd::prelude::*;
use vstd::string::StringExecFns;

verus! {

/// A capability of the host under its own name.
pub open spec fn lent(name: Seq<char>, arity: i32) -> (Seq<char>, ObjectV) {
    (name, ObjectV::Builtin(arity, NativeV::Host(name)))
}

/// The bindings of a fresh environment: the native functions of the
/// interpreter, and the capabilities that a host is expected to lend, each
/// with its arity.
pub open spec fn registry() -> Seq<(Seq<char>, ObjectV)> {
    seq![
        ("len"@, ObjectV::Builtin(1, NativeV::Len)),
        ("first"@, ObjectV::Builtin(1, NativeV::First)),
        ("last"@, ObjectV::Builtin(1, NativeV::Last)),
        ("rest"@, ObjectV::Builtin(1, NativeV::Rest)),
        ("push"@, ObjectV::Builtin(2, NativeV::Push)),
        lent("\u{5e7f}\u{64ad}"@, 1),
        lent("\u{4e8c}\u{5411}\u{7b94}\u{6e05}\u{7406}"@, 0),
        lent("\u{6bc1}\u{706d}"@, 0),
        lent("\u{51ac}\u{7720}"@, 1),
        lent("random"@, 1),
        (
            "\u{6ca1}\u{5173}\u{7cfb}\u{7684}\u{90fd}\u{4e00}\u{6837}"@,
            ObjectV::Builtin(2, NativeV::DeepEqual),
        ),
        lent("\u{5bfb}\u{627e}"@, 1),
        lent("import"@, 1),
    ]
}

/// A binding of a native function of the interpreter.
fn native(name: &str, arity: i32, f: Native) -> (r: (String, Object))
    ensures
        r.0@ == name@,
        r.1@ == ObjectV::Builtin(arity, f@),
{
    (String::from_str(name), Object::Builtin(arity, f))
}

/// A binding of a capability of the host under its own name.
fn host_capability(name: &str, arity: i32) -> (r: (String, Object))
    ensures
        (r.0@, r.1@) == lent(name@, arity),
{
    (String::from_str(name), Object::Builtin(arity, Native::Host(String::from_str(name))))
}

/// The bindings of a fresh environment. `len`, `first`, `last`, `rest`,
/// `push` and the comparison of printed values are native to the
/// interpreter. Printing, clearing the screen, leaving, sleeping, `random`,
/// fetching and `import` are capabilities that the host lends.
pub fn new_builtins() -> (r: Vec<(String, Object)>)
    ensures
        bindings_view(r@) == registry(),
{
    let mut builtins: Vec<(String, Object)> = Vec::new();
    builtins.push(native("len", 1, Native::Len));
    builtins.push(native("first", 1, Native::First));
    builtins.push(native("last", 1, Native::Last));
    builtins.push(native("rest", 1, Native::Rest));
    builtins.push(native("push", 2, Native::Push));
    builtins.push(host_capability("\u{5e7f}\u{64ad}", 1));
    builtins.push(host_capability("\u{4e8c}\u{5411}\u{7b94}\u{6e05}\u{7406}", 0));
    builtins.push(host_capability("\u{6bc1}\u{706d}", 0));
    builtins.push(host_capability("\u{51ac}\u{7720}", 1));
    builtins.push(host_capability("random", 1));
    builtins.push(
        native(
            "\u{6ca1}\u{5173}\u{7cfb}\u{7684}\u{90fd}\u{4e00}\u{6837}",
            2,
            Native::DeepEqual,
        ),
    );
    builtins.push(host_capability("\u{5bfb}\u{627e}", 1));
    builtins.push(host_capability("import", 1));
    assert(bindings_view(builtins@) =~= registry());
    builtins
}

/// Draws an integer from `0` up to, and without, `high`, with
/// `rand::thread_rng` and `rand::distributions::Uniform::new(0, high)`.
/// Trusted: the number drawn lies in that range. Which number it is depends
/// on chance, and nothing is said of it.
#[verifier::external_body]
fn draw_below(high: i64) -> (r: i64)
    requires
        high > 0,
    ensures
        0 <= r < high,
{
    rand::Rng::sample(&mut rand::thread_rng(), rand::distributions::Uniform::new(0, high))
}

/// What `random` makes of a number that was drawn for its argument: the
/// number for an integer argument, `Null` for any other.
pub fn random_value(arg: &Object, drawn: i64) -> (r: Object)
    ensures
        r@ == match arg@ {
            ObjectV::Int(_) => ObjectV::Int(drawn),
            _ => ObjectV::Null,
        },
{
    match arg {
        Object::Int(_) => Object::Int(drawn),
        _ => Object::Null,
    }
}

/// Whether `random` can draw for these arguments: there is a first
/// argument and, if it is an integer, it is above zero.
pub open spec fn can_draw(args: Seq<ObjectV>) -> bool {
    args.len() >= 1 && (args[0] matches ObjectV::Int(high) ==> high > 0)
}

/// Whether `random` can draw for these arguments.
pub fn random_accepts(args: &Vec<Object>) -> (r: bool)
    ensures
        r == can_draw(crate::evaluator::object::objects_view(*args)),
{
    if args.len() < 1 {
        return false;
    }
    assert(crate::evaluator::object::objects_view(*args)[0] == args[0]@);
    match &args[0] {
        Object::Int(high) => *high > 0,
        _ => true,
    }
}

/// random: for an integer argument above zero, an integer from zero up to,
/// and without, the argument; `Null` for an argument that is no integer.
pub fn three_body_random(args: &Vec<Object>) -> (r: Object)
    requires
        can_draw(crate::evaluator::object::objects_view(*args)),
    ensures
        match crate::evaluator::object::objects_view(*args)[0] {
            ObjectV::Int(high) => r@ matches ObjectV::Int(v) && 0 <= v < high,
            _ => r@ == ObjectV::Null,
        },
{
    assert(crate::evaluator::object::objects_view(*args)[0] == args[0]@);
    match &args[0] {
        Object::Int(high) => {
            let drawn = draw_below(*high);
            random_value(&args[0], drawn)
        },
        other => random_value(other, 0),
    }
}

/// random, for any arguments: what [`three_body_random`] returns where it
/// can draw, and nothing where it cannot.
pub fn try_random(args: &Vec<Object>) -> (r: Option<Object>)
    ensures
        r is Some == can_draw(crate::evaluator::object::objects_view(*args)),
        r matches Some(o) ==> match crate::evaluator::object::objects_view(*args)[0] {
            ObjectV::Int(high) => o@ matches ObjectV::Int(v) && 0 <= v < high,
            _ => o@ == ObjectV::Null,
        },
{
    if random_accepts(args) {
        Some(three_body_random(args))
    } else {
        None
    }
}

/// The time that the sleep capability is asked for, in milliseconds: the
/// first argument where it is an integer that is not negative.
pub fn sleep_millis(args: &Vec<Object>) -> (r: Option<u64>)
    ensures
        r == if args.len() >= 1 {
            match args[0]@ {
                ObjectV::Int(ms) => if ms >= 0 {
                    Some(ms as u64)
                } else {
                    None
                },
                _ => None,
            }
        } else {
            None
        },
{
    if args.len() < 1 {
        return None;
    }
    match &args[0] {
        Object::Int(ms) => {
            if *ms >= 0 {
                Some(*ms as u64)
            } else {
                None
            }
        },
        _ => None,
    }
}

} // verus!
