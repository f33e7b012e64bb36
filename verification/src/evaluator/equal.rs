//! Equality of syntax trees and of values, decided on the values
//! themselves.

use crate::ast::{
    block_view, exprs_view, idents_view, pairs_view, Expr, Ident, Literal, Stmt,
};
use crate::evaluator::object::{entries_view, objects_view, Native, Object};
use vstd::prelude::*;

verus! {

/// Whether two parameter lists are equal.
pub fn same_idents(a: &Vec<Ident>, b: &Vec<Ident>) -> (r: bool)
    ensures
        r == (idents_view(*a) == idents_view(*b)),
{
    if a.len() != b.len() {
        assert(idents_view(*a).len() != idents_view(*b).len());
        return false;
    }
    let mut i: usize = 0;
    while i < a.len()
        invariant
            i <= a.len(),
            a.len() == b.len(),
            forall|j: int| 0 <= j < i ==> a[j]@ == b[j]@,
        decreases a.len() - i,
    {
        if !(a[i].0 == b[i].0) {
            assert(idents_view(*a)[i as int] != idents_view(*b)[i as int]);
            return false;
        }
        i = i + 1;
    }
    assert(idents_view(*a) =~= idents_view(*b));
    true
}

/// Whether two lists of expressions are equal.
#[verifier::loop_isolation(false)]
pub fn same_exprs(a: &Vec<Expr>, b: &Vec<Expr>) -> (r: bool)
    ensures
        r == (exprs_view(*a) == exprs_view(*b)),
    decreases a,
{
    if a.len() != b.len() {
        assert(exprs_view(*a).len() != exprs_view(*b).len());
        return false;
    }
    let mut i: usize = 0;
    while i < a.len()
        invariant
            i <= a.len(),
            a.len() == b.len(),
            forall|j: int| 0 <= j < i ==> a[j]@ == b[j]@,
        decreases a.len() - i,
    {
        if !same_expr(&a[i], &b[i]) {
            assert(exprs_view(*a)[i as int] != exprs_view(*b)[i as int]);
            return false;
        }
        i = i + 1;
    }
    assert(exprs_view(*a) =~= exprs_view(*b));
    true
}

/// Whether two lists of key and value expressions are equal.
#[verifier::loop_isolation(false)]
pub fn same_pairs(a: &Vec<(Expr, Expr)>, b: &Vec<(Expr, Expr)>) -> (r: bool)
    ensures
        r == (pairs_view(*a) == pairs_view(*b)),
    decreases a,
{
    if a.len() != b.len() {
        assert(pairs_view(*a).len() != pairs_view(*b).len());
        return false;
    }
    let mut i: usize = 0;
    while i < a.len()
        invariant
            i <= a.len(),
            a.len() == b.len(),
            forall|j: int| 0 <= j < i ==> a[j].0@ == b[j].0@ && a[j].1@ == b[j].1@,
        decreases a.len() - i,
    {
        if !same_expr(&a[i].0, &b[i].0) || !same_expr(&a[i].1, &b[i].1) {
            assert(pairs_view(*a)[i as int] != pairs_view(*b)[i as int]);
            return false;
        }
        i = i + 1;
    }
    assert(pairs_view(*a) =~= pairs_view(*b));
    true
}

/// Whether two blocks are equal.
#[verifier::loop_isolation(false)]
pub fn same_block(a: &Vec<Stmt>, b: &Vec<Stmt>) -> (r: bool)
    ensures
        r == (block_view(*a) == block_view(*b)),
    decreases a,
{
    if a.len() != b.len() {
        assert(block_view(*a).len() != block_view(*b).len());
        return false;
    }
    let mut i: usize = 0;
    while i < a.len()
        invariant
            i <= a.len(),
            a.len() == b.len(),
            forall|j: int| 0 <= j < i ==> a[j]@ == b[j]@,
        decreases a.len() - i,
    {
        if !same_stmt(&a[i], &b[i]) {
            assert(block_view(*a)[i as int] != block_view(*b)[i as int]);
            return false;
        }
        i = i + 1;
    }
    assert(block_view(*a) =~= block_view(*b));
    true
}

/// Whether two literals are equal.
pub fn same_literal(a: &Literal, b: &Literal) -> (r: bool)
    ensures
        r == (a@ == b@),
    decreases a,
{
    match (a, b) {
        (Literal::Int(x), Literal::Int(y)) => *x == *y,
        (Literal::String(x), Literal::String(y)) => *x == *y,
        (Literal::Bool(x), Literal::Bool(y)) => *x == *y,
        (Literal::Array(x), Literal::Array(y)) => same_exprs(x, y),
        (Literal::Hash(x), Literal::Hash(y)) => same_pairs(x, y),
        _ => false,
    }
}

/// Whether two expressions are equal.
pub fn same_expr(a: &Expr, b: &Expr) -> (r: bool)
    ensures
        r == (a@ == b@),
    decreases a,
{
    match (a, b) {
        (Expr::Literal(x), Expr::Literal(y)) => same_literal(x, y),
        (Expr::Ident(x), Expr::Ident(y)) => x.0 == y.0,
        (Expr::Prefix(p, x), Expr::Prefix(q, y)) => *p == *q && same_expr(x, y),
        (Expr::Infix(p, xa, xb), Expr::Infix(q, ya, yb)) => *p == *q && same_expr(xa, ya)
            && same_expr(xb, yb),
        (Expr::Index(xa, xb), Expr::Index(ya, yb)) => same_expr(xa, ya) && same_expr(xb, yb),
        (
            Expr::While { cond: cx, consequence: bx },
            Expr::While { cond: cy, consequence: by },
        ) => same_expr(cx, cy) && same_block(bx, by),
        (
            Expr::If { cond: cx, consequence: bx, alternative: ax },
            Expr::If { cond: cy, consequence: by, alternative: ay },
        ) => {
            let alt = match (ax, ay) {
                (Some(x), Some(y)) => same_block(x, y),
                (None, None) => true,
                _ => false,
            };
            alt && same_expr(cx, cy) && same_block(bx, by)
        },
        (Expr::Function { params: px, body: bx }, Expr::Function { params: py, body: by }) => {
            same_idents(px, py) && same_block(bx, by)
        },
        (Expr::Call { func: fx, args: ax }, Expr::Call { func: fy, args: ay }) => same_expr(fx, fy)
            && same_exprs(ax, ay),
        _ => false,
    }
}

/// Whether two statements are equal.
pub fn same_stmt(a: &Stmt, b: &Stmt) -> (r: bool)
    ensures
        r == (a@ == b@),
    decreases a,
{
    match (a, b) {
        (Stmt::Let(i, x), Stmt::Let(j, y)) => i.0 == j.0 && same_expr(x, y),
        (Stmt::Const(i, x), Stmt::Const(j, y)) => i.0 == j.0 && same_expr(x, y),
        (Stmt::Break, Stmt::Break) => true,
        (Stmt::Blank, Stmt::Blank) => true,
        (Stmt::Continue, Stmt::Continue) => true,
        (Stmt::Return(x), Stmt::Return(y)) => same_expr(x, y),
        (Stmt::Expr(x), Stmt::Expr(y)) => same_expr(x, y),
        (Stmt::ReAssign(i, x), Stmt::ReAssign(j, y)) => i.0 == j.0 && same_expr(x, y),
        _ => false,
    }
}

/// Whether two native functions are the same.
pub fn same_native(a: &Native, b: &Native) -> (r: bool)
    ensures
        r == (a@ == b@),
{
    match (a, b) {
        (Native::Len, Native::Len) => true,
        (Native::First, Native::First) => true,
        (Native::Last, Native::Last) => true,
        (Native::Rest, Native::Rest) => true,
        (Native::Push, Native::Push) => true,
        (Native::DeepEqual, Native::DeepEqual) => true,
        (Native::Host(x), Native::Host(y)) => *x == *y,
        _ => false,
    }
}

/// Whether two lists of objects are equal.
#[verifier::loop_isolation(false)]
pub fn same_objects(a: &Vec<Object>, b: &Vec<Object>) -> (r: bool)
    ensures
        r == (objects_view(*a) == objects_view(*b)),
    decreases a,
{
    if a.len() != b.len() {
        assert(objects_view(*a).len() != objects_view(*b).len());
        return false;
    }
    let mut i: usize = 0;
    while i < a.len()
        invariant
            i <= a.len(),
            a.len() == b.len(),
            forall|j: int| 0 <= j < i ==> a[j]@ == b[j]@,
        decreases a.len() - i,
    {
        if !same_object(&a[i], &b[i]) {
            assert(objects_view(*a)[i as int] != objects_view(*b)[i as int]);
            return false;
        }
        i = i + 1;
    }
    assert(objects_view(*a) =~= objects_view(*b));
    true
}

/// Whether two lists of pairs of objects are equal, pair by pair.
#[verifier::loop_isolation(false)]
pub fn same_entries(a: &Vec<(Object, Object)>, b: &Vec<(Object, Object)>) -> (r: bool)
    ensures
        r == (entries_view(*a) == entries_view(*b)),
    decreases a,
{
    if a.len() != b.len() {
        assert(entries_view(*a).len() != entries_view(*b).len());
        return false;
    }
    let mut i: usize = 0;
    while i < a.len()
        invariant
            i <= a.len(),
            a.len() == b.len(),
            forall|j: int| 0 <= j < i ==> a[j].0@ == b[j].0@ && a[j].1@ == b[j].1@,
        decreases a.len() - i,
    {
        if !same_object(&a[i].0, &b[i].0) || !same_object(&a[i].1, &b[i].1) {
            assert(entries_view(*a)[i as int] != entries_view(*b)[i as int]);
            return false;
        }
        i = i + 1;
    }
    assert(entries_view(*a) =~= entries_view(*b));
    true
}

/// Whether two objects are equal.
pub fn same_object(a: &Object, b: &Object) -> (r: bool)
    ensures
        r == (a@ == b@),
    decreases a,
{
    match (a, b) {
        (Object::Int(x), Object::Int(y)) => *x == *y,
        (Object::String(x), Object::String(y)) => *x == *y,
        (Object::Bool(x), Object::Bool(y)) => *x == *y,
        (Object::Array(x), Object::Array(y)) => same_objects(x, y),
        (Object::Hash(x), Object::Hash(y)) => same_entries(x, y),
        (Object::Function(px, bx, ex), Object::Function(py, by, ey)) => *ex == *ey && same_idents(
            px,
            py,
        ) && same_block(bx, by),
        (Object::Builtin(n, f), Object::Builtin(m, g)) => *n == *m && same_native(f, g),
        (Object::ReturnValue(x), Object::ReturnValue(y)) => same_object(x, y),
        (Object::BreakStatement, Object::BreakStatement) => true,
        (Object::ContinueStatement, Object::ContinueStatement) => true,
        (Object::Error(x), Object::Error(y)) => *x == *y,
        (Object::Null, Object::Null) => true,
        _ => false,
    }
}

} // verus!
