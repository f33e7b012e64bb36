//! The evaluation of calls: of closures and of native functions.

use crate::ast::{block_view, exprs_view, idents_view, BlockStmt, Expr, Ident};
use crate::evaluator::host::Host;
use crate::evaluator::object::{display, objects_view, push_display, Native, Object, ObjectV};
use crate::evaluator::semantics::{
    apply_builtin, apply_function, bind_params, eval_args, eval_block, eval_call, eval_expr,
    native_call, not_a_function, ok, returned, wrong_count, Steps, World,
};
use crate::evaluator::values::{
    monkey_first, monkey_last, monkey_len, monkey_push, monkey_rest, three_body_deep_equal,
    wrong_number_error, Fatal,
};
use crate::evaluator::{agrees, value_opt, Evaluator};
use crate::text::push_nat;
use vstd::prelude::*;
use vstd::string::StringExecFns;

verus! {

/// The error for a call of what is no function.
fn not_a_function_error(o: &Object) -> (r: Object)
    ensures
        r@ == ObjectV::Error(not_a_function(o@)),
{
    let mut s = String::new();
    push_display(&mut s, o);
    assert(Seq::<char>::empty() + display(o@) =~= display(o@));
    s.append(" is not valid function");
    Object::Error(s)
}

/// The error for a call of a function with the wrong number of arguments.
fn wrong_count_error(expected: usize, given: usize) -> (r: Object)
    ensures
        r@ == ObjectV::Error(wrong_count(expected as nat, given as nat)),
{
    let mut s = String::from_str("wrong number of arguments: ");
    push_nat(&mut s, expected as u64);
    s.append(" expected but ");
    push_nat(&mut s, given as u64);
    s.append(" given");
    Object::Error(s)
}

/// What a call makes of the value of a function body.
fn returned_value(v: Option<Object>) -> (r: Object)
    ensures
        r@ == returned(value_opt(v)),
{
    match v {
        Some(Object::ReturnValue(o)) => *o,
        Some(o) => o,
        None => Object::Null,
    }
}

/// The call of a native function.
pub fn call_builtin<H: Host>(arity: i32, f: &Native, args: Vec<Object>, host: &mut H) -> (r:
    Object)
    ensures
        (r@, final(host).state()) == native_call::<H>(
            old(host).state(),
            arity,
            f@,
            objects_view(args),
        ),
{
    assert(objects_view(args).len() == args.len());
    if arity >= 0 && (arity as u64) != (args.len() as u64) {
        return wrong_number_error(args.len(), arity as i64);
    }
    match f {
        Native::Host(name) => host.invoke(name.as_str(), &args),
        Native::Len => {
            if args.len() < 1 {
                wrong_number_error(args.len(), 1)
            } else {
                monkey_len(&args)
            }
        },
        Native::First => {
            if args.len() < 1 {
                wrong_number_error(args.len(), 1)
            } else {
                monkey_first(&args)
            }
        },
        Native::Last => {
            if args.len() < 1 {
                wrong_number_error(args.len(), 1)
            } else {
                monkey_last(&args)
            }
        },
        Native::Rest => {
            if args.len() < 1 {
                wrong_number_error(args.len(), 1)
            } else {
                monkey_rest(&args)
            }
        },
        Native::Push => {
            if args.len() < 2 {
                wrong_number_error(args.len(), 2)
            } else {
                monkey_push(&args)
            }
        },
        Native::DeepEqual => {
            if args.len() < 2 {
                wrong_number_error(args.len(), 2)
            } else {
                three_body_deep_equal(&args)
            }
        },
    }
}

impl Evaluator {
    /// The values of the arguments of a call, from left to right.
    #[verifier::loop_isolation(false)]
    pub(crate) fn eval_args<H: Host>(&mut self, depth: u64, args: &Vec<Expr>, host: &mut H) -> (r:
        Result<Vec<Object>, Fatal>)
        requires
            old(self).env@.wf(),
        ensures
            final(self).kept(old(self)),
            eval_args::<H>(
                old(self).limits(depth),
                old(self).world(old(host)),
                exprs_view(*args),
                0,
                Seq::empty(),
            ) == (Steps {
                world: final(self).world(final(host)),
                values: match r {
                    Ok(values) => Ok(objects_view(values)),
                    Err(f) => Err(f),
                },
            }),
        decreases depth, 1nat, args, 0nat, 0nat,
    {
        let ghost limits = self.limits(depth);
        let ghost total = eval_args::<H>(
            limits,
            self.world(host),
            exprs_view(*args),
            0,
            Seq::empty(),
        );
        let mut out: Vec<Object> = Vec::new();
        let mut i: usize = 0;
        assert(objects_view(out) =~= Seq::<ObjectV>::empty());
        while i < args.len()
            invariant
                i <= args.len(),
                self.kept(old(self)),
                eval_args::<H>(
                    limits,
                    self.world(host),
                    exprs_view(*args),
                    i as nat,
                    objects_view(out),
                ) == total,
            decreases args.len() - i,
        {
            proof {
                reveal(eval_args);
                reveal(eval_expr);
            }
            assert(exprs_view(*args)[i as int] == args[i as int]@);
            let ghost acc = objects_view(out);
            match self.eval_expr(depth, &args[i], host) {
                Err(f) => {
                    return Err(f);
                },
                Ok(v) => {
                    let o = match v {
                        Some(o) => o,
                        None => Object::Null,
                    };
                    out.push(o);
                    assert(objects_view(out) =~= acc.push(o@));
                },
            }
            i = i + 1;
        }
        proof {
            reveal(eval_args);
        }
        Ok(out)
    }

    /// The value of a call.
    pub(crate) fn eval_call_expr<H: Host>(&mut self, depth: u64, expr: &Expr, host: &mut H) -> (r:
        Result<Option<Object>, Fatal>)
        requires
            old(self).env@.wf(),
            expr is Call,
        ensures
            final(self).kept(old(self)),
            agrees(
                r,
                final(self).env@,
                final(host).state(),
                eval_call::<H>(old(self).limits(depth), old(self).world(old(host)), expr@),
            ),
        decreases depth, 1nat, expr, 0nat, 1nat,
    {
        proof {
            reveal(eval_call);
            reveal(eval_args);
            reveal(eval_expr);
            reveal(apply_function);
        }
        match expr {
            Expr::Call { func, args } => {
                let values = match self.eval_args(depth, args, host) {
                    Err(f) => {
                        return Err(f);
                    },
                    Ok(values) => values,
                };
                match self.eval_expr(depth, func, host) {
                    Err(f) => Err(f),
                    Ok(None) => Ok(Some(Object::Null)),
                    Ok(Some(Object::Function(params, body, env))) => self.apply_function(
                        depth,
                        &params,
                        &body,
                        env,
                        values,
                        host,
                    ),
                    Ok(Some(Object::Builtin(arity, f))) => {
                        let r = call_builtin(arity, &f, values, host);
                        Ok(Some(r))
                    },
                    Ok(Some(o)) => Ok(Some(not_a_function_error(&o))),
                }
            },
            _ => Ok(None),
        }
    }

    /// The call of a closure.
    #[verifier::loop_isolation(false)]
    pub(crate) fn apply_function<H: Host>(
        &mut self,
        depth: u64,
        params: &Vec<Ident>,
        body: &BlockStmt,
        env: usize,
        args: Vec<Object>,
        host: &mut H,
    ) -> (r: Result<Option<Object>, Fatal>)
        requires
            old(self).env@.wf(),
        ensures
            final(self).kept(old(self)),
            agrees(
                r,
                final(self).env@,
                final(host).state(),
                apply_function::<H>(
                    old(self).limits(depth),
                    old(self).world(old(host)),
                    idents_view(*params),
                    block_view(*body),
                    env as nat,
                    objects_view(args),
                ),
            ),
        decreases depth, 0nat, body, 0nat, 0nat,
    {
        proof {
            reveal(apply_function);
            reveal(eval_block);
        }
        assert(idents_view(*params).len() == params.len());
        assert(objects_view(args).len() == args.len());
        if params.len() != args.len() {
            return Ok(Some(wrong_count_error(params.len(), args.len())));
        }
        if env >= self.env.len() {
            let f = Object::Function(
                crate::ast::copy_idents(params),
                crate::ast::copy_block(body),
                env,
            );
            return Ok(Some(not_a_function_error(&f)));
        }
        if depth == 0 {
            return Err(Fatal::DepthExceeded);
        }
        let ghost outside = self.env@;
        let previous = self.env.enter(env);
        let ghost names = idents_view(*params);
        let ghost values = objects_view(args);
        let mut i: usize = 0;
        while i < params.len()
            invariant
                i <= params.len(),
                params.len() == args.len(),
                self.kept(old(self)),
                self.env@.frames.len() == outside.frames.len() + 1,
                bind_params(self.env@, names, values, i as nat) == bind_params(
                    outside.enter(env as nat),
                    names,
                    values,
                    0,
                ),
            decreases params.len() - i,
        {
            assert(names[i as int] == params[i as int]@);
            assert(values[i as int] == args[i as int]@);
            self.env.set(params[i].0.clone(), args[i].clone());
            i = i + 1;
        }
        let result = self.eval_block_stmt(depth - 1, body, host);
        match result {
            Err(f) => Err(f),
            Ok(v) => {
                self.env.exit(previous);
                Ok(Some(returned_value(v)))
            },
        }
    }
}

} // verus!
