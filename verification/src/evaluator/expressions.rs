//! The evaluation of expressions: names, literals, operators, conditions
//! and loops.

use crate::ast::{exprs_view, pairs_view, Expr, ExprV, Ident, Literal};
use crate::evaluator::host::Host;
use crate::evaluator::object::{entries_view, objects_view, Object, ObjectV};
use crate::evaluator::semantics::{
    eval_array, eval_block, eval_call, eval_expr, eval_hash, eval_while, ident_value, or_null,
};
use crate::evaluator::values::{
    eval_index_expr, eval_infix_expr, eval_prefix_expr, insert_pair, is_error, is_truthy, Fatal,
};
use crate::evaluator::{agrees, value_opt, Evaluator};
use vstd::prelude::*;
use vstd::string::StringExecFns;

verus! {

/// A value, or `Null` where there is none.
fn unwrap_or_null(v: Option<Object>) -> (r: Object)
    ensures
        r@ == or_null(value_opt(v)),
{
    match v {
        Some(o) => o,
        None => Object::Null,
    }
}

impl Evaluator {
    /// The value of an expression.
    pub(crate) fn eval_expr<H: Host>(&mut self, depth: u64, expr: &Expr, host: &mut H) -> (r:
        Result<Option<Object>, Fatal>)
        requires
            old(self).env@.wf(),
        ensures
            final(self).kept(old(self)),
            agrees(
                r,
                final(self).env@,
                final(host).state(),
                eval_expr::<H>(old(self).limits(depth), old(self).world(old(host)), expr@),
            ),
        decreases depth, 1nat, expr, 1nat, 0nat,
    {
        proof {
            reveal(eval_expr);
            reveal(eval_array);
            reveal(eval_hash);
            reveal(eval_while);
            reveal(eval_block);
            reveal(eval_call);
        }
        match expr {
            Expr::Ident(ident) => Ok(Some(self.eval_ident(ident))),
            Expr::Literal(literal) => self.eval_literal(depth, literal, host),
            Expr::Prefix(prefix, right_expr) => {
                match self.eval_expr(depth, right_expr, host) {
                    Err(f) => Err(f),
                    Ok(None) => Ok(None),
                    Ok(Some(right)) => match eval_prefix_expr(prefix, right) {
                        Ok(o) => Ok(Some(o)),
                        Err(f) => Err(f),
                    },
                }
            },
            Expr::Infix(infix, left_expr, right_expr) => {
                let left = match self.eval_expr(depth, left_expr, host) {
                    Err(f) => {
                        return Err(f);
                    },
                    Ok(left) => left,
                };
                let right = match self.eval_expr(depth, right_expr, host) {
                    Err(f) => {
                        return Err(f);
                    },
                    Ok(right) => right,
                };
                match (left, right) {
                    (Some(l), Some(r)) => match eval_infix_expr(infix, l, r) {
                        Ok(o) => Ok(Some(o)),
                        Err(f) => Err(f),
                    },
                    _ => Ok(None),
                }
            },
            Expr::Index(left_expr, index_expr) => {
                let left = match self.eval_expr(depth, left_expr, host) {
                    Err(f) => {
                        return Err(f);
                    },
                    Ok(left) => left,
                };
                let index = match self.eval_expr(depth, index_expr, host) {
                    Err(f) => {
                        return Err(f);
                    },
                    Ok(index) => index,
                };
                match (left, index) {
                    (Some(l), Some(i)) => Ok(Some(eval_index_expr(l, i))),
                    _ => Ok(None),
                }
            },
            Expr::While { cond, consequence } => self.eval_while_expr(depth, expr, host),
            Expr::If { cond, consequence, alternative } => self.eval_if_expr(depth, expr, host),
            Expr::Function { params, body } => {
                self.env.capture();
                Ok(
                    Some(
                        Object::Function(
                            crate::ast::copy_idents(params),
                            crate::ast::copy_block(body),
                            self.env.current(),
                        ),
                    ),
                )
            },
            Expr::Call { func, args } => self.eval_call_expr(depth, expr, host),
        }
    }

    /// The value of a condition: of the branch that the condition picks.
    pub(crate) fn eval_if_expr<H: Host>(&mut self, depth: u64, expr: &Expr, host: &mut H) -> (r:
        Result<Option<Object>, Fatal>)
        requires
            old(self).env@.wf(),
            expr is If,
        ensures
            final(self).kept(old(self)),
            agrees(
                r,
                final(self).env@,
                final(host).state(),
                eval_expr::<H>(old(self).limits(depth), old(self).world(old(host)), expr@),
            ),
        decreases depth, 1nat, expr, 0nat, 0nat,
    {
        proof {
            reveal(eval_expr);
            reveal(eval_block);
        }
        match expr {
            Expr::If { cond, consequence, alternative } => {
                let c = match self.eval_expr(depth, cond, host) {
                    Err(f) => {
                        return Err(f);
                    },
                    Ok(None) => {
                        return Ok(None);
                    },
                    Ok(Some(c)) => c,
                };
                if is_truthy(&c) {
                    self.eval_block_stmt(depth, consequence, host)
                } else {
                    match alternative {
                        Some(alt) => self.eval_block_stmt(depth, alt, host),
                        None => Ok(None),
                    }
                }
            },
            _ => Ok(None),
        }
    }

    /// The value of a loop.
    #[verifier::loop_isolation(false)]
    pub(crate) fn eval_while_expr<H: Host>(&mut self, depth: u64, expr: &Expr, host: &mut H) -> (r:
        Result<Option<Object>, Fatal>)
        requires
            old(self).env@.wf(),
            expr is While,
        ensures
            final(self).kept(old(self)),
            agrees(
                r,
                final(self).env@,
                final(host).state(),
                eval_while::<H>(
                    old(self).limits(depth),
                    old(self).world(old(host)),
                    expr@,
                    old(self).max_iterations as nat,
                    None,
                ),
            ),
        decreases depth, 1nat, expr, 0nat, 0nat,
    {
        let ghost limits = self.limits(depth);
        let ghost total = eval_while::<H>(
            limits,
            self.world(host),
            expr@,
            self.max_iterations as nat,
            None,
        );
        match expr {
            Expr::While { cond, consequence } => {
                let mut result: Option<Object> = None;
                let mut left: u64 = self.max_iterations;
                loop
                    invariant
                        self.kept(old(self)),
                        eval_while::<H>(
                            limits,
                            self.world(host),
                            expr@,
                            left as nat,
                            value_opt(result),
                        ) == total,
                    decreases left,
                {
                    proof {
                        reveal(eval_while);
                        reveal(eval_expr);
                        reveal(eval_block);
                    }
                    let c = match self.eval_expr(depth, cond, host) {
                        Err(f) => {
                            return Err(f);
                        },
                        Ok(None) => {
                            return Ok(result);
                        },
                        Ok(Some(c)) => c,
                    };
                    if !is_truthy(&c) {
                        return Ok(result);
                    }
                    if left == 0 {
                        return Err(Fatal::LoopExceeded);
                    }
                    match self.eval_block_stmt_with_continue_and_break_statement(
                        depth,
                        consequence,
                        host,
                    ) {
                        Err(f) => {
                            return Err(f);
                        },
                        Ok(Some(Object::BreakStatement)) => {
                            return Ok(Some(Object::Null));
                        },
                        Ok(Some(Object::ContinueStatement)) => {
                            result = Some(Object::Null);
                        },
                        Ok(Some(Object::ReturnValue(value))) => {
                            return Ok(Some(Object::ReturnValue(value)));
                        },
                        Ok(Some(Object::Error(msg))) => {
                            return Ok(Some(Object::Error(msg)));
                        },
                        Ok(_) => {},
                    }
                    left = left - 1;
                }
            },
            _ => Ok(None),
        }
    }

    /// What a name stands for.
    pub(crate) fn eval_ident(&self, ident: &Ident) -> (r: Object)
        requires
            self.env@.wf(),
        ensures
            r@ == ident_value(self.env@, ident@),
    {
        match self.env.get(ident.0.clone()) {
            Some(value) => value,
            None => {
                let mut s = String::from_str("identifier not found: ");
                s.append(ident.0.as_str());
                Object::Error(s)
            },
        }
    }

    /// The value of a literal.
    pub(crate) fn eval_literal<H: Host>(
        &mut self,
        depth: u64,
        literal: &Literal,
        host: &mut H,
    ) -> (r: Result<Option<Object>, Fatal>)
        requires
            old(self).env@.wf(),
        ensures
            final(self).kept(old(self)),
            agrees(
                r,
                final(self).env@,
                final(host).state(),
                eval_expr::<H>(
                    old(self).limits(depth),
                    old(self).world(old(host)),
                    ExprV::Literal(literal@),
                ),
            ),
        decreases depth, 1nat, literal, 1nat, 0nat,
    {
        proof {
            reveal(eval_expr);
            reveal(eval_array);
            reveal(eval_hash);
        }
        match literal {
            Literal::Int(value) => Ok(Some(Object::Int(*value))),
            Literal::String(value) => Ok(Some(Object::String(value.clone()))),
            Literal::Bool(value) => Ok(Some(Object::Bool(*value))),
            Literal::Array(objects) => self.eval_array_literal(depth, objects, host),
            Literal::Hash(pairs) => self.eval_hash_literal(depth, pairs, host),
        }
    }

    /// The value of an array literal.
    #[verifier::loop_isolation(false)]
    pub(crate) fn eval_array_literal<H: Host>(
        &mut self,
        depth: u64,
        objects: &Vec<Expr>,
        host: &mut H,
    ) -> (r: Result<Option<Object>, Fatal>)
        requires
            old(self).env@.wf(),
        ensures
            final(self).kept(old(self)),
            agrees(
                r,
                final(self).env@,
                final(host).state(),
                eval_array::<H>(
                    old(self).limits(depth),
                    old(self).world(old(host)),
                    exprs_view(*objects),
                    0,
                    Seq::empty(),
                ),
            ),
        decreases depth, 1nat, objects, 0nat, 0nat,
    {
        let ghost limits = self.limits(depth);
        let ghost total = eval_array::<H>(
            limits,
            self.world(host),
            exprs_view(*objects),
            0,
            Seq::empty(),
        );
        let mut out: Vec<Object> = Vec::new();
        let mut i: usize = 0;
        assert(objects_view(out) =~= Seq::<ObjectV>::empty());
        while i < objects.len()
            invariant
                i <= objects.len(),
                self.kept(old(self)),
                eval_array::<H>(
                    limits,
                    self.world(host),
                    exprs_view(*objects),
                    i as nat,
                    objects_view(out),
                ) == total,
            decreases objects.len() - i,
        {
            proof {
                reveal(eval_array);
                reveal(eval_expr);
            }
            assert(exprs_view(*objects)[i as int] == objects[i as int]@);
            let ghost acc = objects_view(out);
            match self.eval_expr(depth, &objects[i], host) {
                Err(f) => {
                    return Err(f);
                },
                Ok(v) => {
                    let o = unwrap_or_null(v);
                    out.push(o);
                    assert(objects_view(out) =~= acc.push(o@));
                },
            }
            i = i + 1;
        }
        proof {
            reveal(eval_array);
        }
        Ok(Some(Object::Array(out)))
    }

    /// The value of a hash literal.
    #[verifier::loop_isolation(false)]
    pub(crate) fn eval_hash_literal<H: Host>(
        &mut self,
        depth: u64,
        pairs: &Vec<(Expr, Expr)>,
        host: &mut H,
    ) -> (r: Result<Option<Object>, Fatal>)
        requires
            old(self).env@.wf(),
        ensures
            final(self).kept(old(self)),
            agrees(
                r,
                final(self).env@,
                final(host).state(),
                eval_hash::<H>(
                    old(self).limits(depth),
                    old(self).world(old(host)),
                    pairs_view(*pairs),
                    0,
                    Seq::empty(),
                ),
            ),
        decreases depth, 1nat, pairs, 0nat, 0nat,
    {
        let ghost limits = self.limits(depth);
        let ghost total = eval_hash::<H>(
            limits,
            self.world(host),
            pairs_view(*pairs),
            0,
            Seq::empty(),
        );
        let mut hash: Vec<(Object, Object)> = Vec::new();
        let mut i: usize = 0;
        assert(entries_view(hash) =~= Seq::<(ObjectV, ObjectV)>::empty());
        while i < pairs.len()
            invariant
                i <= pairs.len(),
                self.kept(old(self)),
                eval_hash::<H>(
                    limits,
                    self.world(host),
                    pairs_view(*pairs),
                    i as nat,
                    entries_view(hash),
                ) == total,
            decreases pairs.len() - i,
        {
            proof {
                reveal(eval_hash);
                reveal(eval_expr);
            }
            assert(pairs_view(*pairs)[i as int] == (pairs[i as int].0@, pairs[i as int].1@));
            let key = match self.eval_expr(depth, &pairs[i].0, host) {
                Err(f) => {
                    return Err(f);
                },
                Ok(v) => unwrap_or_null(v),
            };
            if is_error(&key) {
                return Ok(Some(key));
            }
            let value = match self.eval_expr(depth, &pairs[i].1, host) {
                Err(f) => {
                    return Err(f);
                },
                Ok(v) => unwrap_or_null(v),
            };
            if is_error(&value) {
                return Ok(Some(value));
            }
            insert_pair(&mut hash, key, value);
            i = i + 1;
        }
        proof {
            reveal(eval_hash);
        }
        Ok(Some(Object::Hash(hash)))
    }
}

} // verus!
