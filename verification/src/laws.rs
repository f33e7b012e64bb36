//! Laws of the interpreter: what holds of every environment, every value
//! and every call.

use crate::ast::{ExprV, Precedence};
use crate::evaluator::env::{CheckInnerInfo, EnvV, Info};
use crate::evaluator::host::Host;
use crate::evaluator::object::{NativeV, ObjectV};
use crate::evaluator::semantics::{apply_builtin, native_call, ok, World};
use crate::evaluator::values::{index_value, native_value, wrong_number};
use crate::parser::grammar::{
    done, expr_loop, fold, infix_expr, infix_of, lead, parse_expr, precedence_of, ParseErrorV,
};
use crate::parser::stream::at;
use crate::token::TokenV;
use vstd::prelude::*;

verus! {

/// A native function with an arity of zero or more, called with another
/// number of arguments, yields the error that names both numbers, whatever
/// the function is; neither the environment nor the host is touched.
pub proof fn lemma_arity_is_enforced<H: Host>(
    w: World<H::State>,
    arity: i32,
    f: NativeV,
    args: Seq<ObjectV>,
)
    requires
        arity >= 0,
        args.len() != arity,
    ensures
        apply_builtin::<H>(w, arity, f, args) == ok(
            w,
            Some(ObjectV::Error(wrong_number(args.len(), arity as int))),
        ),
{
}

/// A native function with the arity that it was called with takes the
/// call: a capability of the host answers as the host does.
pub proof fn lemma_host_answers<H: Host>(
    w: World<H::State>,
    arity: i32,
    name: Seq<char>,
    args: Seq<ObjectV>,
)
    requires
        arity < 0 || arity == args.len(),
    ensures
        apply_builtin::<H>(w, arity, NativeV::Host(name), args).value == Ok::<
            Option<ObjectV>,
            crate::evaluator::values::Fatal,
        >(Some(H::reply(w.host, name, args))),
        apply_builtin::<H>(w, arity, NativeV::Host(name), args).world.host == H::next(
            w.host,
            name,
            args,
        ),
{
}

/// No call of a native function changes the environment. So `push` hands
/// out a new array and what a name was bound to stays as it was.
pub proof fn lemma_natives_keep_the_environment<H: Host>(
    w: World<H::State>,
    arity: i32,
    f: NativeV,
    args: Seq<ObjectV>,
)
    ensures
        apply_builtin::<H>(w, arity, f, args).world.env == w.env,
        args.len() == 2 && args[0] is Array ==> native_value(NativeV::Push, args) == ObjectV::Array(
            args[0]->Array_0.push(args[1]),
        ),
{
}

/// What a scope sees does not depend on the scopes made after it: a new
/// scope, and a binding in it, change nothing for a scope that was there
/// before. A name bound in an inner scope does not leak outward.
pub proof fn lemma_inner_scope_is_invisible(
    env: EnvV,
    outer: nat,
    name: Seq<char>,
    value: ObjectV,
    frame: nat,
    other: Seq<char>,
)
    requires
        env.wf(),
        frame < env.frames.len(),
    ensures
        env.enter(outer).lookup(frame, other) == env.lookup(frame, other),
        env.enter(outer).set(name, value).lookup(frame, other) == env.lookup(frame, other),
    decreases frame,
{
    match env.frames[frame as int].outer {
        Some(o) => {
            if o < frame {
                lemma_inner_scope_is_invisible(env, outer, name, value, o, other);
            }
        },
        None => {},
    }
}

/// An inner scope sees the names of its outer scope, and a binding of its
/// own hides one of the outer scope.
pub proof fn lemma_inner_scope_sees_outward(
    env: EnvV,
    name: Seq<char>,
    value: ObjectV,
    other: Seq<char>,
)
    requires
        env.wf(),
        other != name,
    ensures
        env.enter(env.current).get(other) == env.get(other),
        env.enter(env.current).set(name, value).get(name) == Some(value),
        env.enter(env.current).set(name, value).get(other) == env.get(other),
{
    lemma_inner_scope_is_invisible(env, env.current, name, value, env.current, other);
    let inner = env.enter(env.current);
    assert(!inner.frames[inner.current as int].store.contains_key(other));
    let bound = inner.set(name, value);
    assert(bound.frames[bound.current as int].store.contains_key(name));
    assert(!bound.frames[bound.current as int].store.contains_key(other));
}

/// A name that the current scope holds as a constant takes no new value,
/// and cannot be declared again; the environment stays as it is.
pub proof fn lemma_constants_are_protected(env: EnvV, name: Seq<char>, value: ObjectV)
    requires
        env.wf(),
        env.frames[env.current as int].store.contains_key(name),
        env.is_constant(name),
    ensures
        env.update(name, value) == (env, Info::ConstantForbidden),
        env.check_inner(name) == CheckInnerInfo::ConstantExist,
{
}

/// A constant of an outer scope is protected from an inner scope that has
/// no binding of the name, and a binding of the inner scope is free of it.
pub proof fn lemma_constants_reach_inward(env: EnvV, name: Seq<char>, value: ObjectV)
    requires
        env.wf(),
        env.frames[env.current as int].store.contains_key(name),
        env.is_constant(name),
    ensures
        env.enter(env.current).update(name, value).1 == Info::ConstantForbidden,
        env.enter(env.current).check_inner(name) == CheckInnerInfo::NoIdentifier,
        env.enter(env.current).set(name, value).update(name, value).1 == Info::Succeed,
{
    let inner = env.enter(env.current);
    assert(!inner.frames[inner.current as int].store.contains_key(name));
    assert(inner.frames[env.current as int] == env.frames[env.current as int]);
    reveal_with_fuel(EnvV::update_from, 2);
    let bound = inner.set(name, value);
    assert(bound.frames[bound.current as int].store.contains_key(name));
    assert(!bound.frames[bound.current as int].constants.contains(name));
}

/// An index below zero, or at or beyond the length of an array, yields
/// `Null`, never an error.
pub proof fn lemma_index_outside_is_null(items: Seq<ObjectV>, index: i64)
    requires
        index < 0 || index >= items.len(),
    ensures
        index_value(ObjectV::Array(items), ObjectV::Int(index)) == ObjectV::Null,
{
}

/// An index within an array yields the item at its place.
pub proof fn lemma_index_inside_is_the_item(items: Seq<ObjectV>, index: i64)
    requires
        0 <= index < items.len(),
    ensures
        index_value(ObjectV::Array(items), ObjectV::Int(index)) == items[index as int],
{
}

/// Of two infix operators in a row the one that binds tighter takes its
/// operands first, and of two that bind alike the left one: `a + b * c` is
/// `a + (b * c)`, and `a - b + c` is `(a - b) + c`. This holds of all
/// names and all infix operators.
pub proof fn lemma_precedence_decides(
    a: Seq<char>,
    first: TokenV,
    b: Seq<char>,
    second: TokenV,
    c: Seq<char>,
    errors: Seq<ParseErrorV>,
)
    requires
        infix_of(first) is Some,
        infix_of(second) is Some,
    ensures
        ({
            let ts = seq![TokenV::Ident(a), first, TokenV::Ident(b), second, TokenV::Ident(c)];
            let x = Box::new(ExprV::Ident(a));
            let y = Box::new(ExprV::Ident(b));
            let z = Box::new(ExprV::Ident(c));
            let p = infix_of(first)->0;
            let q = infix_of(second)->0;
            parse_expr(Precedence::Lowest, ts, 0, errors) == done(
                if precedence_of(first).rank() >= precedence_of(second).rank() {
                    ExprV::Infix(q, Box::new(ExprV::Infix(p, x, y)), z)
                } else {
                    ExprV::Infix(p, x, Box::new(ExprV::Infix(q, y, z)))
                },
                4,
                errors,
            )
        }),
{
    let ts = seq![TokenV::Ident(a), first, TokenV::Ident(b), second, TokenV::Ident(c)];
    let one = precedence_of(first);
    let two = precedence_of(second);
    let p = infix_of(first)->0;
    let q = infix_of(second)->0;
    let x = ExprV::Ident(a);
    let y = ExprV::Ident(b);
    let z = ExprV::Ident(c);
    reveal_with_fuel(parse_expr, 2);
    reveal_with_fuel(lead, 2);
    reveal_with_fuel(expr_loop, 3);
    reveal_with_fuel(fold, 2);
    reveal_with_fuel(infix_expr, 2);
    assert(at(ts, 0) == TokenV::Ident(a));
    assert(at(ts, 1) == first);
    assert(at(ts, 2) == TokenV::Ident(b));
    assert(at(ts, 3) == second);
    assert(at(ts, 4) == TokenV::Ident(c));
    assert(at(ts, 5) == TokenV::Eof);
    assert(one.rank() > 0 && two.rank() > 0);
    assert(first != TokenV::Semicolon && second != TokenV::Semicolon);
    // the last operand
    assert(expr_loop(two, z, ts, 4, errors) == done(z, 0, errors));
    assert(parse_expr(two, ts, 4, errors) == done(z, 0, errors));
    assert(infix_expr(y, ts, 3, errors) == done(
        ExprV::Infix(q, Box::new(y), Box::new(z)),
        1,
        errors,
    ));
    if one.rank() >= two.rank() {
        let left = ExprV::Infix(p, Box::new(x), Box::new(y));
        assert(expr_loop(one, y, ts, 2, errors) == done(y, 0, errors));
        assert(parse_expr(one, ts, 2, errors) == done(y, 0, errors));
        assert(infix_expr(x, ts, 1, errors) == done(left, 1, errors));
        assert(infix_expr(left, ts, 3, errors) == done(
            ExprV::Infix(q, Box::new(left), Box::new(z)),
            1,
            errors,
        ));
        let both = ExprV::Infix(q, Box::new(left), Box::new(z));
        assert(expr_loop(Precedence::Lowest, both, ts, 4, errors) == done(both, 0, errors));
        assert(expr_loop(Precedence::Lowest, left, ts, 2, errors) == done(
            ExprV::Infix(q, Box::new(left), Box::new(z)),
            2,
            errors,
        ));
        assert(expr_loop(Precedence::Lowest, x, ts, 0, errors) == done(
            ExprV::Infix(q, Box::new(left), Box::new(z)),
            4,
            errors,
        ));
    } else {
        let right = ExprV::Infix(q, Box::new(y), Box::new(z));
        assert(expr_loop(one, right, ts, 4, errors) == done(right, 0, errors));
        assert(expr_loop(one, y, ts, 2, errors) == done(right, 2, errors));
        assert(parse_expr(one, ts, 2, errors) == done(right, 2, errors));
        let whole = ExprV::Infix(p, Box::new(x), Box::new(right));
        assert(infix_expr(x, ts, 1, errors) == done(whole, 3, errors));
        assert(expr_loop(Precedence::Lowest, whole, ts, 4, errors) == done(whole, 0, errors));
        assert(expr_loop(Precedence::Lowest, x, ts, 0, errors) == done(whole, 4, errors));
    }
}

} // verus!
