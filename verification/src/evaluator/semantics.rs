//! The meaning of programs: what the evaluation of an expression, a
//! statement or a block yields, from the environment and the state of the
//! host before it to the environment and the state of the host after it.

use crate::ast::{ExprV, LiteralV, StmtV};
use crate::evaluator::env::{CheckInnerInfo, EnvV, Info};
use crate::evaluator::host::Host;
use crate::evaluator::object::{display, NativeV, ObjectV};
use crate::evaluator::values::{
    index_value, infix_value, native_arity, native_value, pair_insert, prefix_value, truthy,
    wrong_number, Fatal,
};
use crate::text::nat_text;
use vstd::prelude::*;

verus! {

/// What an evaluation works on: the environment and the state of the host.
pub struct World<S> {
    pub env: EnvV,
    pub host: S,
}

/// What an evaluation yields: the world after it and its value, where it
/// has one, or the failure that ended it.
pub struct Step<S> {
    pub world: World<S>,
    pub value: Result<Option<ObjectV>, Fatal>,
}

/// What the evaluation of a list of expressions yields.
pub struct Steps<S> {
    pub world: World<S>,
    pub values: Result<Seq<ObjectV>, Fatal>,
}

/// How far an evaluation may go: how deep calls may nest, and how often a
/// loop may run its body.
pub struct Limits {
    pub depth: nat,
    pub iterations: nat,
}

/// The three kinds of statement sequence. They differ in what ends them
/// early, and in what they make of a return.
#[derive(PartialEq, Eq, Structural, Clone, Copy, Debug)]
pub enum Flavor {
    /// The top level: a return ends it and its value is the result.
    Program,
    /// The body of a function or of a branch: a return ends it and is
    /// handed on as it is.
    Plain,
    /// The body of a loop: a return, a break and a continue end it.
    Loop,
}

/// An evaluation that went well.
pub open spec fn ok<S>(world: World<S>, value: Option<ObjectV>) -> Step<S> {
    Step { world, value: Ok(value) }
}

/// An evaluation that a failure ended.
pub open spec fn fatal<S>(world: World<S>, f: Fatal) -> Step<S> {
    Step { world, value: Err(f) }
}

/// A value, or `Null` where there is none.
pub open spec fn or_null(v: Option<ObjectV>) -> ObjectV {
    match v {
        Some(o) => o,
        None => ObjectV::Null,
    }
}

/// What a name stands for: its value, or an error where it is not bound.
pub open spec fn ident_value(env: EnvV, name: Seq<char>) -> ObjectV {
    match env.get(name) {
        Some(v) => v,
        None => ObjectV::Error("identifier not found: "@ + name),
    }
}

/// A message made of a phrase, a name and an exclamation mark.
pub open spec fn complaint(phrase: Seq<char>, name: Seq<char>) -> Seq<char> {
    phrase + " "@ + name + "!"@
}

/// The declaration of `name` with `value` in the current scope. A name
/// that the scope already has is not declared again.
pub open spec fn declare<S>(w: World<S>, name: Seq<char>, value: ObjectV, constant: bool) -> Step<
    S,
> {
    match w.env.check_inner(name) {
        CheckInnerInfo::ConstantExist => ok(
            w,
            Some(ObjectV::Error(complaint("Can not redeclare constant variable"@, name))),
        ),
        CheckInnerInfo::VariableExist => ok(
            w,
            Some(ObjectV::Error(complaint("Can not redeclare variable"@, name))),
        ),
        CheckInnerInfo::NoIdentifier => ok(
            World {
                env: if constant {
                    w.env.set(name, value).constant(name)
                } else {
                    w.env.set(name, value)
                },
                host: w.host,
            },
            None,
        ),
    }
}

/// The assignment of `value` to the name `name`, which must be bound and
/// not constant.
pub open spec fn assign<S>(w: World<S>, name: Seq<char>, value: ObjectV) -> Step<S> {
    let u = w.env.update(name, value);
    match u.1 {
        Info::ConstantForbidden => ok(
            w,
            Some(ObjectV::Error(complaint("Can not assign to constant variable"@, name))),
        ),
        Info::NoIdentifier => ok(w, Some(ObjectV::Error(complaint("No identifier"@, name)))),
        Info::Succeed => ok(World { env: u.0, host: w.host }, None),
    }
}

/// Whether the value of a statement ends the sequence that it stands in.
pub open spec fn stops(flavor: Flavor, v: Option<ObjectV>) -> bool {
    match v {
        Some(ObjectV::ReturnValue(_)) => true,
        Some(ObjectV::Error(_)) => true,
        Some(ObjectV::BreakStatement) => flavor == Flavor::Loop,
        Some(ObjectV::ContinueStatement) => flavor == Flavor::Loop,
        _ => false,
    }
}

/// What a sequence yields when the value `v` ends it: at the top level the
/// value that was returned, elsewhere `v` as it is.
pub open spec fn finish(flavor: Flavor, v: Option<ObjectV>) -> Option<ObjectV> {
    match v {
        Some(ObjectV::ReturnValue(x)) => if flavor == Flavor::Program {
            Some(*x)
        } else {
            v
        },
        _ => v,
    }
}

/// The message for a call of a function with the wrong number of
/// arguments.
pub open spec fn wrong_count(expected: nat, given: nat) -> Seq<char> {
    "wrong number of arguments: "@ + nat_text(expected) + " expected but "@ + nat_text(given)
        + " given"@
}

/// The message for a call of what is no function.
pub open spec fn not_a_function(o: ObjectV) -> Seq<char> {
    display(o) + " is not valid function"@
}

/// What the call of a native function returns, and the state of the host
/// after it. One with an arity of zero or more takes exactly that many
/// arguments; a capability of the host is asked of the host; a native
/// function of the interpreter needs the arguments that it reads.
pub open spec fn native_call<H: Host>(
    host: H::State,
    arity: i32,
    f: NativeV,
    args: Seq<ObjectV>,
) -> (ObjectV, H::State) {
    if arity >= 0 && arity != args.len() {
        (ObjectV::Error(wrong_number(args.len(), arity as int)), host)
    } else {
        match f {
            NativeV::Host(name) => (H::reply(host, name, args), H::next(host, name, args)),
            _ => if args.len() < native_arity(f) {
                (ObjectV::Error(wrong_number(args.len(), native_arity(f) as int)), host)
            } else {
                (native_value(f, args), host)
            },
        }
    }
}

/// The call of a native function: it leaves the environment as it is.
pub open spec fn apply_builtin<H: Host>(
    w: World<H::State>,
    arity: i32,
    f: NativeV,
    args: Seq<ObjectV>,
) -> Step<H::State> {
    let c = native_call::<H>(w.host, arity, f, args);
    ok(World { env: w.env, host: c.1 }, Some(c.0))
}

/// The environment with the parameters from place `i` on bound to their
/// arguments in the current scope.
pub open spec fn bind_params(
    env: EnvV,
    params: Seq<Seq<char>>,
    args: Seq<ObjectV>,
    i: nat,
) -> EnvV
    decreases params.len() - i,
{
    if i >= params.len() || i >= args.len() {
        env
    } else {
        bind_params(env.set(params[i as int], args[i as int]), params, args, i + 1)
    }
}

/// What a call makes of the value of a function body.
pub open spec fn returned(v: Option<ObjectV>) -> ObjectV {
    match v {
        Some(ObjectV::ReturnValue(o)) => *o,
        Some(o) => o,
        None => ObjectV::Null,
    }
}

/// The value of an expression.
#[verifier::opaque]
pub open spec fn eval_expr<H: Host>(
    limits: Limits,
    w: World<H::State>,
    e: ExprV,
) -> Step<H::State>
    decreases limits.depth, 1nat, e, 1nat, 0nat,
{
    match e {
        ExprV::Ident(name) => ok(w, Some(ident_value(w.env, name))),
        ExprV::Literal(l) => match l {
            LiteralV::Int(i) => ok(w, Some(ObjectV::Int(i))),
            LiteralV::String(s) => ok(w, Some(ObjectV::String(s))),
            LiteralV::Bool(b) => ok(w, Some(ObjectV::Bool(b))),
            LiteralV::Array(items) => eval_array::<H>(limits, w, items, 0, Seq::empty()),
            LiteralV::Hash(pairs) => eval_hash::<H>(limits, w, pairs, 0, Seq::empty()),
        },
        ExprV::Prefix(op, right) => {
            let r = eval_expr::<H>(limits, w, *right);
            match r.value {
                Ok(Some(v)) => match prefix_value(op, v) {
                    Ok(o) => ok(r.world, Some(o)),
                    Err(f) => fatal(r.world, f),
                },
                _ => r,
            }
        },
        ExprV::Infix(op, left, right) => {
            let a = eval_expr::<H>(limits, w, *left);
            match a.value {
                Err(_) => a,
                Ok(x) => {
                    let b = eval_expr::<H>(limits, a.world, *right);
                    match b.value {
                        Err(_) => b,
                        Ok(y) => match (x, y) {
                            (Some(p), Some(q)) => match infix_value(op, p, q) {
                                Ok(o) => ok(b.world, Some(o)),
                                Err(f) => fatal(b.world, f),
                            },
                            _ => ok(b.world, None),
                        },
                    }
                },
            }
        },
        ExprV::Index(left, index) => {
            let a = eval_expr::<H>(limits, w, *left);
            match a.value {
                Err(_) => a,
                Ok(x) => {
                    let b = eval_expr::<H>(limits, a.world, *index);
                    match b.value {
                        Err(_) => b,
                        Ok(y) => match (x, y) {
                            (Some(p), Some(q)) => ok(b.world, Some(index_value(p, q))),
                            _ => ok(b.world, None),
                        },
                    }
                },
            }
        },
        ExprV::While { cond, consequence } => eval_while::<H>(
            limits,
            w,
            e,
            limits.iterations,
            None,
        ),
        ExprV::If { cond, consequence, alternative } => {
            let c = eval_expr::<H>(limits, w, *cond);
            match c.value {
                Ok(Some(v)) => if truthy(v) {
                    eval_block::<H>(limits, c.world, consequence, 0, None, Flavor::Plain)
                } else {
                    match alternative {
                        Some(alt) => eval_block::<H>(limits, c.world, alt, 0, None, Flavor::Plain),
                        None => ok(c.world, None),
                    }
                },
                _ => c,
            }
        },
        ExprV::Function { params, body } => ok(
            World { env: w.env.capture(), host: w.host },
            Some(ObjectV::Function(params, body, w.env.current)),
        ),
        ExprV::Call { func, args } => eval_call::<H>(limits, w, e),
    }
}

/// The items of an array literal from place `i` on, after the values
/// `acc`: each item is evaluated in its turn, and one without a value
/// counts as `Null`.
#[verifier::opaque]
pub open spec fn eval_array<H: Host>(
    limits: Limits,
    w: World<H::State>,
    items: Seq<ExprV>,
    i: nat,
    acc: Seq<ObjectV>,
) -> Step<H::State>
    decreases limits.depth, 1nat, items, 0nat, items.len() - i,
{
    if i >= items.len() {
        ok(w, Some(ObjectV::Array(acc)))
    } else {
        let r = eval_expr::<H>(limits, w, items[i as int]);
        match r.value {
            Err(_) => r,
            Ok(v) => eval_array::<H>(limits, r.world, items, i + 1, acc.push(or_null(v))),
        }
    }
}

/// The pairs of a hash literal from place `i` on, after the pairs `acc`:
/// key and value are evaluated in their turn, and an error among them is
/// the value of the literal.
#[verifier::opaque]
pub open spec fn eval_hash<H: Host>(
    limits: Limits,
    w: World<H::State>,
    pairs: Seq<(ExprV, ExprV)>,
    i: nat,
    acc: Seq<(ObjectV, ObjectV)>,
) -> Step<H::State>
    decreases limits.depth, 1nat, pairs, 0nat, pairs.len() - i,
{
    if i >= pairs.len() {
        ok(w, Some(ObjectV::Hash(acc)))
    } else {
        let k = eval_expr::<H>(limits, w, pairs[i as int].0);
        match k.value {
            Err(_) => k,
            Ok(kv) => if or_null(kv) is Error {
                ok(k.world, Some(or_null(kv)))
            } else {
                let v = eval_expr::<H>(limits, k.world, pairs[i as int].1);
                match v.value {
                    Err(_) => v,
                    Ok(vv) => if or_null(vv) is Error {
                        ok(v.world, Some(or_null(vv)))
                    } else {
                        eval_hash::<H>(
                            limits,
                            v.world,
                            pairs,
                            i + 1,
                            pair_insert(acc, or_null(kv), or_null(vv)),
                        )
                    },
                }
            },
        }
    }
}

/// The arguments of a call from place `i` on, after the values `acc`, from
/// left to right; one without a value counts as `Null`.
#[verifier::opaque]
pub open spec fn eval_args<H: Host>(
    limits: Limits,
    w: World<H::State>,
    args: Seq<ExprV>,
    i: nat,
    acc: Seq<ObjectV>,
) -> Steps<H::State>
    decreases limits.depth, 1nat, args, 0nat, args.len() - i,
{
    if i >= args.len() {
        Steps { world: w, values: Ok(acc) }
    } else {
        let r = eval_expr::<H>(limits, w, args[i as int]);
        match r.value {
            Err(f) => Steps { world: r.world, values: Err(f) },
            Ok(v) => eval_args::<H>(limits, r.world, args, i + 1, acc.push(or_null(v))),
        }
    }
}

/// A call: the arguments are evaluated first, in the scope of the call,
/// then the callee.
#[verifier::opaque]
pub open spec fn eval_call<H: Host>(limits: Limits, w: World<H::State>, e: ExprV) -> Step<
    H::State,
>
    decreases limits.depth, 1nat, e, 0nat, 0nat,
{
    match e {
        ExprV::Call { func, args } => {
            let a = eval_args::<H>(limits, w, args, 0, Seq::empty());
            match a.values {
                Err(f) => fatal(a.world, f),
                Ok(values) => {
                    let c = eval_expr::<H>(limits, a.world, *func);
                    match c.value {
                        Err(_) => c,
                        Ok(None) => ok(c.world, Some(ObjectV::Null)),
                        Ok(Some(ObjectV::Function(params, body, env))) => apply_function::<H>(
                            limits,
                            c.world,
                            params,
                            body,
                            env,
                            values,
                        ),
                        Ok(Some(ObjectV::Builtin(arity, f))) => apply_builtin::<H>(
                            c.world,
                            arity,
                            f,
                            values,
                        ),
                        Ok(Some(o)) => ok(c.world, Some(ObjectV::Error(not_a_function(o)))),
                    }
                },
            }
        },
        _ => ok(w, None),
    }
}

/// The call of a closure: a new scope inside the scope in which the
/// closure was made holds the arguments under the names of the parameters;
/// the body is evaluated there; then the scope of the call is current
/// again, and the new scope is gone unless a closure was made in it or a
/// scope made after it has stayed. A failure in the body leaves the world
/// as it was when it came.
#[verifier::opaque]
pub open spec fn apply_function<H: Host>(
    limits: Limits,
    w: World<H::State>,
    params: Seq<Seq<char>>,
    body: Seq<StmtV>,
    env: nat,
    args: Seq<ObjectV>,
) -> Step<H::State>
    decreases limits.depth, 0nat, body, 0nat, 0nat,
{
    if params.len() != args.len() {
        ok(w, Some(ObjectV::Error(wrong_count(params.len(), args.len()))))
    } else if env >= w.env.frames.len() {
        ok(w, Some(ObjectV::Error(not_a_function(ObjectV::Function(params, body, env)))))
    } else if limits.depth == 0 {
        fatal(w, Fatal::DepthExceeded)
    } else {
        let inner = World {
            env: bind_params(w.env.enter(env), params, args, 0),
            host: w.host,
        };
        let r = eval_block::<H>(
            Limits { depth: (limits.depth - 1) as nat, iterations: limits.iterations },
            inner,
            body,
            0,
            None,
            Flavor::Plain,
        );
        match r.value {
            Err(_) => r,
            Ok(v) => ok(
                World { env: r.world.env.exit(w.env.current), host: r.world.host },
                Some(returned(v)),
            ),
        }
    }
}

/// The statements of a sequence from place `i` on, where `last` is the
/// value of the statement before. Blank statements are passed over; the
/// value of the last statement is the value of the sequence.
#[verifier::opaque]
pub open spec fn eval_block<H: Host>(
    limits: Limits,
    w: World<H::State>,
    stmts: Seq<StmtV>,
    i: nat,
    last: Option<ObjectV>,
    flavor: Flavor,
) -> Step<H::State>
    decreases limits.depth, 1nat, stmts, 0nat, stmts.len() - i,
{
    if i >= stmts.len() {
        ok(w, last)
    } else if stmts[i as int] is Blank {
        eval_block::<H>(limits, w, stmts, i + 1, last, flavor)
    } else {
        let r = eval_stmt::<H>(limits, w, stmts[i as int]);
        match r.value {
            Err(_) => r,
            Ok(v) => if stops(flavor, v) {
                ok(r.world, finish(flavor, v))
            } else {
                eval_block::<H>(limits, r.world, stmts, i + 1, v, flavor)
            },
        }
    }
}

/// The value of a statement. A declaration and an assignment that go well
/// have none.
#[verifier::opaque]
pub open spec fn eval_stmt<H: Host>(
    limits: Limits,
    w: World<H::State>,
    s: StmtV,
) -> Step<H::State>
    decreases limits.depth, 1nat, s, 1nat, 0nat,
{
    match s {
        StmtV::Let(name, e) => {
            let r = eval_expr::<H>(limits, w, e);
            match r.value {
                Ok(Some(v)) => if v is Error {
                    r
                } else {
                    declare(r.world, name, v, false)
                },
                _ => r,
            }
        },
        StmtV::Const(name, e) => {
            let r = eval_expr::<H>(limits, w, e);
            match r.value {
                Ok(Some(v)) => if v is Error {
                    r
                } else {
                    declare(r.world, name, v, true)
                },
                _ => r,
            }
        },
        StmtV::Break => ok(w, Some(ObjectV::BreakStatement)),
        StmtV::Continue => ok(w, Some(ObjectV::ContinueStatement)),
        StmtV::Return(e) => {
            let r = eval_expr::<H>(limits, w, e);
            match r.value {
                Ok(Some(v)) => ok(r.world, Some(ObjectV::ReturnValue(Box::new(v)))),
                _ => r,
            }
        },
        StmtV::Expr(e) => eval_expr::<H>(limits, w, e),
        StmtV::ReAssign(name, e) => {
            let r = eval_expr::<H>(limits, w, e);
            match r.value {
                Ok(Some(v)) => if v is Error {
                    r
                } else {
                    assign(r.world, name, v)
                },
                _ => r,
            }
        },
        StmtV::Blank => ok(w, None),
    }
}

/// The loop `e` with `left` runs of its body still allowed, where `result`
/// is its value so far. The loop ends where the condition has no value or
/// one that counts as false. A break ends it and a continue goes on with
/// the next run, both with the value `Null`; a return and an error end it
/// and are handed on; any other value of the body is dropped.
#[verifier::opaque]
pub open spec fn eval_while<H: Host>(
    limits: Limits,
    w: World<H::State>,
    e: ExprV,
    left: nat,
    result: Option<ObjectV>,
) -> Step<H::State>
    decreases limits.depth, 1nat, e, 0nat, left,
{
    match e {
        ExprV::While { cond, consequence } => {
            let c = eval_expr::<H>(limits, w, *cond);
            match c.value {
                Err(_) => c,
                Ok(None) => ok(c.world, result),
                Ok(Some(v)) => if !truthy(v) {
                    ok(c.world, result)
                } else if left == 0 {
                    fatal(c.world, Fatal::LoopExceeded)
                } else {
                    let b = eval_block::<H>(limits, c.world, consequence, 0, None, Flavor::Loop);
                    match b.value {
                        Err(_) => b,
                        Ok(Some(ObjectV::BreakStatement)) => ok(b.world, Some(ObjectV::Null)),
                        Ok(Some(ObjectV::ContinueStatement)) => eval_while::<H>(
                            limits,
                            b.world,
                            e,
                            (left - 1) as nat,
                            Some(ObjectV::Null),
                        ),
                        Ok(Some(ObjectV::ReturnValue(x))) => ok(
                            b.world,
                            Some(ObjectV::ReturnValue(x)),
                        ),
                        Ok(Some(ObjectV::Error(m))) => ok(b.world, Some(ObjectV::Error(m))),
                        Ok(_) => eval_while::<H>(limits, b.world, e, (left - 1) as nat, result),
                    }
                },
            }
        },
        _ => ok(w, result),
    }
}

/// The value of a program in the world `w`.
pub open spec fn eval_program<H: Host>(
    limits: Limits,
    w: World<H::State>,
    program: Seq<StmtV>,
) -> Step<H::State> {
    eval_block::<H>(limits, w, program, 0, None, Flavor::Program)
}

} // verus!
