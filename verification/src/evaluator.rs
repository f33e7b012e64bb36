//! The evaluator: it walks the syntax tree and evaluates statements and
//! expressions in the current scope of its environment.

use crate::ast::{block_view, BlockStmt, Program, Stmt};
use crate::evaluator::env::{CheckInnerInfo, Env, EnvV, Info};
use crate::evaluator::host::Host;
use crate::evaluator::object::{Object, ObjectV};
use crate::evaluator::semantics::{
    assign, complaint, declare, eval_block, eval_expr, eval_program, eval_stmt, finish, ok,
    stops, Flavor, Limits, Step, World,
};
use crate::evaluator::values::{is_error, Fatal};
use vstd::prelude::*;
use vstd::string::StringExecFns;

pub mod builtins;
pub mod calls;
pub mod env;
pub mod equal;
pub mod expressions;
pub mod host;
pub mod object;
pub mod semantics;
pub mod values;

verus! {

/// How deep calls may nest unless the evaluator is told otherwise.
pub const DEFAULT_DEPTH: u64 = 256;

/// How often a loop may run its body unless the evaluator is told
/// otherwise.
pub const DEFAULT_ITERATIONS: u64 = 0xffff_ffff_ffff_ffff;

/// An evaluator with its environment and its limits.
pub struct Evaluator {
    pub env: Env,
    pub max_depth: u64,
    pub max_iterations: u64,
}

/// The value of an optional object.
pub open spec fn value_opt(o: Option<Object>) -> Option<ObjectV> {
    match o {
        Some(v) => Some(v@),
        None => None,
    }
}

/// Whether what an evaluation returned and left behind is what `step`
/// says.
pub open spec fn agrees<S>(
    r: Result<Option<Object>, Fatal>,
    env: EnvV,
    host: S,
    step: Step<S>,
) -> bool {
    &&& step.world.env == env
    &&& step.world.host == host
    &&& match r {
        Ok(v) => step.value == Ok::<Option<ObjectV>, Fatal>(value_opt(v)),
        Err(f) => step.value == Err::<Option<ObjectV>, Fatal>(f),
    }
}

/// A message made of a phrase, a name and an exclamation mark.
fn complain(phrase: &str, name: &String) -> (r: Object)
    ensures
        r@ == ObjectV::Error(complaint(phrase@, name@)),
{
    let mut s = String::from_str(phrase);
    s.append(" ");
    s.append(name.as_str());
    s.append("!");
    Object::Error(s)
}

impl Evaluator {
    /// The limits of an evaluation that may nest calls `depth` deep.
    pub open spec fn limits(&self, depth: u64) -> Limits {
        Limits { depth: depth as nat, iterations: self.max_iterations as nat }
    }

    /// The world of the evaluator with the host `host`.
    pub open spec fn world<H: Host>(&self, host: &H) -> World<H::State> {
        World { env: self.env@, host: host.state() }
    }

    /// The environment is well formed and has lost no scope, and the
    /// limits are those of `before`.
    pub open spec fn kept(&self, before: &Evaluator) -> bool {
        &&& self.env@.wf()
        &&& self.env@.frames.len() >= before.env@.frames.len()
        &&& self.max_depth == before.max_depth
        &&& self.max_iterations == before.max_iterations
    }

    /// An evaluator over `env`, with the limits that the library sets.
    pub fn new(env: Env) -> (r: Self)
        ensures
            r.env@ == env@,
            r.max_depth == DEFAULT_DEPTH,
            r.max_iterations == DEFAULT_ITERATIONS,
    {
        Evaluator { env, max_depth: DEFAULT_DEPTH, max_iterations: DEFAULT_ITERATIONS }
    }

    /// An evaluator over `env` that lets calls nest `max_depth` deep and
    /// lets a loop run its body `max_iterations` times.
    pub fn with_limits(env: Env, max_depth: u64, max_iterations: u64) -> (r: Self)
        ensures
            r.env@ == env@,
            r.max_depth == max_depth,
            r.max_iterations == max_iterations,
    {
        Evaluator { env, max_depth, max_iterations }
    }

    /// Evaluates a program: its statements in their order, in the current
    /// scope. The value of the program is the value that a return hands
    /// out, or the error that ended the program, or the value of its last
    /// statement, which may have none. A failure ends the evaluation and
    /// leaves the environment and the host as they were when it came.
    pub fn eval<H: Host>(&mut self, program: &Program, host: &mut H) -> (r: Result<
        Option<Object>,
        Fatal,
    >)
        requires
            old(self).env@.wf(),
        ensures
            final(self).kept(old(self)),
            agrees(
                r,
                final(self).env@,
                final(host).state(),
                eval_program::<H>(
                    old(self).limits(old(self).max_depth),
                    old(self).world(old(host)),
                    block_view(*program),
                ),
            ),
    {
        let depth = self.max_depth;
        self.eval_sequence(depth, program, Flavor::Program, host)
    }

    /// The statements of a sequence in their order.
    #[verifier::loop_isolation(false)]
    pub(crate) fn eval_sequence<H: Host>(
        &mut self,
        depth: u64,
        stmts: &Vec<Stmt>,
        flavor: Flavor,
        host: &mut H,
    ) -> (r: Result<Option<Object>, Fatal>)
        requires
            old(self).env@.wf(),
        ensures
            final(self).kept(old(self)),
            agrees(
                r,
                final(self).env@,
                final(host).state(),
                eval_block::<H>(
                    old(self).limits(depth),
                    old(self).world(old(host)),
                    block_view(*stmts),
                    0,
                    None,
                    flavor,
                ),
            ),
        decreases depth, 1nat, stmts, 0nat, stmts.len(),
    {
        let ghost limits = self.limits(depth);
        let ghost total = eval_block::<H>(
            limits,
            self.world(host),
            block_view(*stmts),
            0,
            None,
            flavor,
        );
        let mut result: Option<Object> = None;
        let mut i: usize = 0;
        while i < stmts.len()
            invariant
                i <= stmts.len(),
                self.kept(old(self)),
                eval_block::<H>(
                    limits,
                    self.world(host),
                    block_view(*stmts),
                    i as nat,
                    value_opt(result),
                    flavor,
                ) == total,
            decreases stmts.len() - i,
        {
            proof {
                reveal(eval_block);
                reveal(eval_stmt);
            }
            assert(block_view(*stmts)[i as int] == stmts[i as int]@);
            let blank = match &stmts[i] {
                Stmt::Blank => true,
                _ => false,
            };
            if !blank {
                match self.eval_stmt(depth, &stmts[i], host) {
                    Err(f) => {
                        return Err(f);
                    },
                    Ok(v) => {
                        if Self::sequence_stops(flavor, &v) {
                            return Ok(Self::sequence_value(flavor, v));
                        }
                        result = v;
                    },
                }
            }
            i = i + 1;
        }
        proof {
            reveal(eval_block);
        }
        Ok(result)
    }

    /// Whether the value of a statement ends its sequence.
    fn sequence_stops(flavor: Flavor, v: &Option<Object>) -> (r: bool)
        ensures
            r == stops(flavor, value_opt(*v)),
    {
        match v {
            Some(Object::ReturnValue(_)) => true,
            Some(Object::Error(_)) => true,
            Some(Object::BreakStatement) => flavor == Flavor::Loop,
            Some(Object::ContinueStatement) => flavor == Flavor::Loop,
            _ => false,
        }
    }

    /// What a sequence yields when `v` ends it.
    fn sequence_value(flavor: Flavor, v: Option<Object>) -> (r: Option<Object>)
        ensures
            value_opt(r) == finish(flavor, value_opt(v)),
    {
        match v {
            Some(Object::ReturnValue(x)) => {
                if flavor == Flavor::Program {
                    Some(*x)
                } else {
                    Some(Object::ReturnValue(x))
                }
            },
            other => other,
        }
    }

    /// The body of a loop: a return, a break, a continue and an error end
    /// it.
    pub(crate) fn eval_block_stmt_with_continue_and_break_statement<H: Host>(
        &mut self,
        depth: u64,
        stmts: &BlockStmt,
        host: &mut H,
    ) -> (r: Result<Option<Object>, Fatal>)
        requires
            old(self).env@.wf(),
        ensures
            final(self).kept(old(self)),
            agrees(
                r,
                final(self).env@,
                final(host).state(),
                eval_block::<H>(
                    old(self).limits(depth),
                    old(self).world(old(host)),
                    block_view(*stmts),
                    0,
                    None,
                    Flavor::Loop,
                ),
            ),
        decreases depth, 1nat, stmts, 0nat, stmts.len() + 1,
    {
        self.eval_sequence(depth, stmts, Flavor::Loop, host)
    }

    /// The body of a function or of a branch: a return and an error end
    /// it.
    pub(crate) fn eval_block_stmt<H: Host>(
        &mut self,
        depth: u64,
        stmts: &BlockStmt,
        host: &mut H,
    ) -> (r: Result<Option<Object>, Fatal>)
        requires
            old(self).env@.wf(),
        ensures
            final(self).kept(old(self)),
            agrees(
                r,
                final(self).env@,
                final(host).state(),
                eval_block::<H>(
                    old(self).limits(depth),
                    old(self).world(old(host)),
                    block_view(*stmts),
                    0,
                    None,
                    Flavor::Plain,
                ),
            ),
        decreases depth, 1nat, stmts, 0nat, stmts.len() + 1,
    {
        self.eval_sequence(depth, stmts, Flavor::Plain, host)
    }

    /// Declares `name` with `value` in the current scope, unless the scope
    /// has the name already.
    fn declare<H: Host>(
        &mut self,
        name: &String,
        value: Object,
        constant: bool,
        host: &H,
    ) -> (r: Option<Object>)
        requires
            old(self).env@.wf(),
        ensures
            final(self).kept(old(self)),
            declare(old(self).world(host), name@, value@, constant) == ok(
                final(self).world(host),
                value_opt(r),
            ),
    {
        match self.env.check_inner(name.clone()) {
            CheckInnerInfo::ConstantExist => Some(
                complain("Can not redeclare constant variable", name),
            ),
            CheckInnerInfo::VariableExist => Some(complain("Can not redeclare variable", name)),
            CheckInnerInfo::NoIdentifier => {
                self.env.set(name.clone(), value);
                if constant {
                    self.env.constant(name.clone());
                }
                None
            },
        }
    }

    /// Assigns `value` to `name`, which must be bound and not constant.
    fn assign<H: Host>(&mut self, name: &String, value: Object, host: &H) -> (r: Option<Object>)
        requires
            old(self).env@.wf(),
        ensures
            final(self).kept(old(self)),
            assign(old(self).world(host), name@, value@) == ok(
                final(self).world(host),
                value_opt(r),
            ),
    {
        match self.env.update(name.clone(), value) {
            Info::ConstantForbidden => Some(complain("Can not assign to constant variable", name)),
            Info::NoIdentifier => Some(complain("No identifier", name)),
            Info::Succeed => None,
        }
    }

    /// The value of a statement.
    pub(crate) fn eval_stmt<H: Host>(&mut self, depth: u64, stmt: &Stmt, host: &mut H) -> (r:
        Result<Option<Object>, Fatal>)
        requires
            old(self).env@.wf(),
        ensures
            final(self).kept(old(self)),
            agrees(
                r,
                final(self).env@,
                final(host).state(),
                eval_stmt::<H>(old(self).limits(depth), old(self).world(old(host)), stmt@),
            ),
        decreases depth, 1nat, stmt, 1nat, 0nat,
    {
        proof {
            reveal(eval_stmt);
            reveal(eval_expr);
        }
        match stmt {
            Stmt::Let(ident, expr) => {
                let value = match self.eval_expr(depth, expr, host) {
                    Err(f) => {
                        return Err(f);
                    },
                    Ok(None) => {
                        return Ok(None);
                    },
                    Ok(Some(value)) => value,
                };
                if is_error(&value) {
                    Ok(Some(value))
                } else {
                    Ok(self.declare(&ident.0, value, false, &*host))
                }
            },
            Stmt::Const(ident, expr) => {
                let value = match self.eval_expr(depth, expr, host) {
                    Err(f) => {
                        return Err(f);
                    },
                    Ok(None) => {
                        return Ok(None);
                    },
                    Ok(Some(value)) => value,
                };
                if is_error(&value) {
                    Ok(Some(value))
                } else {
                    Ok(self.declare(&ident.0, value, true, &*host))
                }
            },
            Stmt::Break => Ok(Some(Object::BreakStatement)),
            Stmt::Continue => Ok(Some(Object::ContinueStatement)),
            Stmt::Return(expr) => {
                let value = match self.eval_expr(depth, expr, host) {
                    Err(f) => {
                        return Err(f);
                    },
                    Ok(None) => {
                        return Ok(None);
                    },
                    Ok(Some(value)) => value,
                };
                Ok(Some(Object::ReturnValue(Box::new(value))))
            },
            Stmt::Expr(expr) => self.eval_expr(depth, expr, host),
            Stmt::ReAssign(ident, expr) => {
                let value = match self.eval_expr(depth, expr, host) {
                    Err(f) => {
                        return Err(f);
                    },
                    Ok(None) => {
                        return Ok(None);
                    },
                    Ok(Some(value)) => value,
                };
                if is_error(&value) {
                    Ok(Some(value))
                } else {
                    Ok(self.assign(&ident.0, value, &*host))
                }
            },
            Stmt::Blank => Ok(None),
        }
    }
}

} // verus!
