//! The grammar, as functions on a sequence of tokens and a position in it:
//! what each production of the parser yields from that position, how many
//! tokens it passes over, and which errors it records.

use crate::ast::{ExprV, Infix, LiteralV, Precedence, Prefix, StmtV};
use crate::parser::stream::{at, remaining};
use crate::token::TokenV;
use vstd::prelude::*;

verus! {

/// The value of a parse error: the token that was asked for, if one was,
/// and the token that was found.
pub struct ParseErrorV {
    pub want: Option<TokenV>,
    pub got: TokenV,
}

/// What a production yields: the node, if it parsed one; the number of
/// steps forward that it took; and all the errors recorded so far.
pub struct Parsed<T> {
    pub node: Option<T>,
    pub used: nat,
    pub errors: Seq<ParseErrorV>,
}

/// A production that parsed no node.
pub open spec fn fail<T>(used: nat, errors: Seq<ParseErrorV>) -> Parsed<T> {
    Parsed { node: None, used, errors }
}

/// A production that parsed `node`.
pub open spec fn done<T>(node: T, used: nat, errors: Seq<ParseErrorV>) -> Parsed<T> {
    Parsed { node: Some(node), used, errors }
}

/// The same outcome after `n` more steps before it.
pub open spec fn shift<T>(p: Parsed<T>, n: nat) -> Parsed<T> {
    Parsed { node: p.node, used: p.used + n, errors: p.errors }
}

/// The errors with one more: `want` was expected where the token at
/// position `k` stands.
pub open spec fn expected(
    errors: Seq<ParseErrorV>,
    want: TokenV,
    ts: Seq<TokenV>,
    k: nat,
) -> Seq<ParseErrorV> {
    errors.push(ParseErrorV { want: Some(want), got: at(ts, k) })
}

/// The errors with one more: a name was expected where the token at
/// position `k` stands.
pub open spec fn expected_name(
    errors: Seq<ParseErrorV>,
    ts: Seq<TokenV>,
    k: nat,
) -> Seq<ParseErrorV> {
    expected(errors, TokenV::Ident("ident"@), ts, k)
}

/// One more step if a semicolon follows the token `n` places after
/// position `i`.
pub open spec fn semicolon(ts: Seq<TokenV>, i: nat, n: nat) -> nat {
    if at(ts, i + n + 1) == TokenV::Semicolon {
        n + 1
    } else {
        n
    }
}

/// The statements of a parsed block.
pub open spec fn block_of(p: Parsed<Seq<StmtV>>) -> Seq<StmtV> {
    match p.node {
        Some(stmts) => stmts,
        None => Seq::empty(),
    }
}

/// How tightly a token binds as an infix, index or call operator.
pub open spec fn precedence_of(t: TokenV) -> Precedence {
    match t {
        TokenV::Equal | TokenV::NotEqual => Precedence::Equals,
        TokenV::LT | TokenV::LTEQ => Precedence::LessGreater,
        TokenV::GT | TokenV::GTEQ => Precedence::LessGreater,
        TokenV::Plus | TokenV::Minus => Precedence::Sum,
        TokenV::Slash | TokenV::Asterisk => Precedence::Product,
        TokenV::LBracket => Precedence::Index,
        TokenV::Dot => Precedence::Index,
        TokenV::LParen => Precedence::Call,
        _ => Precedence::Lowest,
    }
}

/// The infix operator that a token stands for.
pub open spec fn infix_of(t: TokenV) -> Option<Infix> {
    match t {
        TokenV::Plus => Some(Infix::Plus),
        TokenV::Minus => Some(Infix::Minus),
        TokenV::Slash => Some(Infix::Divide),
        TokenV::Asterisk => Some(Infix::Multiply),
        TokenV::Equal => Some(Infix::Equal),
        TokenV::NotEqual => Some(Infix::NotEqual),
        TokenV::LT => Some(Infix::LT),
        TokenV::LTEQ => Some(Infix::LTEQ),
        TokenV::GT => Some(Infix::GT),
        TokenV::GTEQ => Some(Infix::GTEQ),
        _ => None,
    }
}

/// The prefix operator that a token stands for.
pub open spec fn prefix_of(t: TokenV) -> Option<Prefix> {
    match t {
        TokenV::Bang => Some(Prefix::Not),
        TokenV::Minus => Some(Prefix::Minus),
        TokenV::Plus => Some(Prefix::Plus),
        _ => None,
    }
}

/// A parameter list after its first name: each comma brings one more name,
/// and a closing parenthesis ends the list. A comma that no name follows is
/// an error.
#[verifier::opaque]
pub open spec fn params_loop(
    ts: Seq<TokenV>,
    i: nat,
    errors: Seq<ParseErrorV>,
    acc: Seq<Seq<char>>,
) -> Parsed<Seq<Seq<char>>>
    decreases remaining(ts, i),
{
    if at(ts, i + 1) == TokenV::Comma {
        match at(ts, i + 2) {
            TokenV::Ident(name) => shift(
                params_loop(ts, i + 2, errors, acc.push(name)),
                2,
            ),
            _ => fail(2, expected_name(errors, ts, i + 2)),
        }
    } else if at(ts, i + 1) != TokenV::RParen {
        fail(0, expected(errors, TokenV::RParen, ts, i + 1))
    } else {
        done(acc, 1, errors)
    }
}

/// The parameter list whose opening parenthesis is the current token.
pub open spec fn function_args(ts: Seq<TokenV>, i: nat, errors: Seq<ParseErrorV>) -> Parsed<
    Seq<Seq<char>>,
> {
    if at(ts, i + 1) == TokenV::RParen {
        done(Seq::empty(), 1, errors)
    } else {
        match at(ts, i + 1) {
            TokenV::Ident(name) => shift(params_loop(ts, i + 1, errors, seq![name]), 1),
            _ => fail(1, expected_name(errors, ts, i + 1)),
        }
    }
}

/// A statement, by its first token.
#[verifier::opaque]
pub open spec fn parse_stmt(ts: Seq<TokenV>, i: nat, errors: Seq<ParseErrorV>) -> Parsed<StmtV>
    decreases remaining(ts, i), 9nat, 0nat,
{
    match at(ts, i) {
        TokenV::Let => let_stmt(ts, i, errors, false),
        TokenV::Const => let_stmt(ts, i, errors, true),
        TokenV::Return => return_stmt(ts, i, errors),
        TokenV::Ident(_) => if at(ts, i + 1) == TokenV::Assign {
            reassign_stmt(ts, i, errors)
        } else {
            expr_stmt(ts, i, errors)
        },
        TokenV::Break => done(StmtV::Break, semicolon(ts, i, 1), errors),
        TokenV::Continue => done(StmtV::Continue, semicolon(ts, i, 1), errors),
        TokenV::Blank => done(StmtV::Blank, 0, errors),
        _ => expr_stmt(ts, i, errors),
    }
}

/// `let` or `const`, a name, `=`, an expression and an optional semicolon.
#[verifier::opaque]
pub open spec fn let_stmt(
    ts: Seq<TokenV>,
    i: nat,
    errors: Seq<ParseErrorV>,
    constant: bool,
) -> Parsed<StmtV>
    decreases remaining(ts, i), 8nat, 0nat,
{
    match at(ts, i + 1) {
        TokenV::Ident(name) => if at(ts, i + 2) != TokenV::Assign {
            fail(1, expected(errors, TokenV::Assign, ts, i + 2))
        } else {
            let e = parse_expr(Precedence::Lowest, ts, i + 3, errors);
            match e.node {
                None => fail(3 + e.used, e.errors),
                Some(x) => done(
                    if constant {
                        StmtV::Const(name, x)
                    } else {
                        StmtV::Let(name, x)
                    },
                    semicolon(ts, i, 3 + e.used),
                    e.errors,
                ),
            }
        },
        _ => fail(0, expected_name(errors, ts, i + 1)),
    }
}

/// A name, `=`, an expression and an optional semicolon.
#[verifier::opaque]
pub open spec fn reassign_stmt(ts: Seq<TokenV>, i: nat, errors: Seq<ParseErrorV>) -> Parsed<StmtV>
    decreases remaining(ts, i), 8nat, 0nat,
{
    match at(ts, i) {
        TokenV::Ident(name) => if at(ts, i + 1) != TokenV::Assign {
            fail(0, expected(errors, TokenV::Assign, ts, i + 1))
        } else {
            let e = parse_expr(Precedence::Lowest, ts, i + 2, errors);
            match e.node {
                None => fail(2 + e.used, e.errors),
                Some(x) => done(StmtV::ReAssign(name, x), semicolon(ts, i, 2 + e.used), e.errors),
            }
        },
        _ => fail(0, errors),
    }
}

/// `return`, an expression and an optional semicolon.
#[verifier::opaque]
pub open spec fn return_stmt(ts: Seq<TokenV>, i: nat, errors: Seq<ParseErrorV>) -> Parsed<StmtV>
    decreases remaining(ts, i), 8nat, 0nat,
{
    let e = parse_expr(Precedence::Lowest, ts, i + 1, errors);
    match e.node {
        None => fail(1 + e.used, e.errors),
        Some(x) => done(StmtV::Return(x), semicolon(ts, i, 1 + e.used), e.errors),
    }
}

/// An expression and an optional semicolon.
#[verifier::opaque]
pub open spec fn expr_stmt(ts: Seq<TokenV>, i: nat, errors: Seq<ParseErrorV>) -> Parsed<StmtV>
    decreases remaining(ts, i), 8nat, 0nat,
{
    let e = parse_expr(Precedence::Lowest, ts, i, errors);
    match e.node {
        None => fail(e.used, e.errors),
        Some(x) => done(StmtV::Expr(x), semicolon(ts, i, e.used), e.errors),
    }
}

/// The statements of a block up to its closing brace. The current token is
/// the first of the block; at the end of input the missing brace is
/// recorded and the statements so far are kept.
#[verifier::opaque]
pub open spec fn block_loop(
    ts: Seq<TokenV>,
    i: nat,
    errors: Seq<ParseErrorV>,
    acc: Seq<StmtV>,
) -> Parsed<Seq<StmtV>>
    decreases remaining(ts, i) + 1, 0nat, 0nat,
{
    if at(ts, i) == TokenV::RBrace {
        done(acc, 0, errors)
    } else if at(ts, i) == TokenV::Eof {
        done(acc, 0, expected(errors, TokenV::RBrace, ts, i + 1))
    } else {
        let s = parse_stmt(ts, i, errors);
        shift(
            block_loop(
                ts, i + s.used + 1,
                s.errors,
                match s.node {
                    Some(x) => acc.push(x),
                    None => acc,
                },
            ),
            s.used + 1,
        )
    }
}

/// An array literal; the opening bracket is the current token.
#[verifier::opaque]
pub open spec fn array_expr(ts: Seq<TokenV>, i: nat, errors: Seq<ParseErrorV>) -> Parsed<ExprV>
    decreases remaining(ts, i), 2nat, 5nat,
    when i < ts.len()
{
    let l = shift(list_tail(TokenV::RBracket, ts, i + 1, errors), 1);
    Parsed {
        node: match l.node {
            Some(items) => Some(ExprV::Literal(LiteralV::Array(items))),
            None => None,
        },
        used: l.used,
        errors: l.errors,
    }
}

/// The prefix production that the current token begins: a name, a literal,
/// an array, a hash, a group, a prefix operator, `if`, `while` or `fn`.
/// Where no expression can begin, that is recorded, with the token after
/// the current one.
#[verifier::opaque]
pub open spec fn lead(ts: Seq<TokenV>, i: nat, errors: Seq<ParseErrorV>) -> Parsed<ExprV>
    decreases remaining(ts, i), 3nat, 0nat,
{
    match at(ts, i) {
        TokenV::Ident(name) => done(ExprV::Ident(name), 0, errors),
        TokenV::Int(n) => done(ExprV::Literal(LiteralV::Int(n)), 0, errors),
        TokenV::String(s) => done(ExprV::Literal(LiteralV::String(s)), 0, errors),
        TokenV::Bool(b) => done(ExprV::Literal(LiteralV::Bool(b)), 0, errors),
        TokenV::LBracket => array_expr(ts, i, errors),
        TokenV::LBrace => shift(hash_tail(ts, i + 1, errors, Seq::empty()), 1),
        TokenV::LParen => shift(grouped_tail(ts, i + 1, errors), 1),
        TokenV::Bang | TokenV::Minus | TokenV::Plus => prefix_expr(ts, i, errors),
        TokenV::If => if_expr(ts, i, errors),
        TokenV::While => while_expr(ts, i, errors),
        TokenV::Function => function_expr(ts, i, errors),
        _ => fail(0, errors.push(ParseErrorV { want: None, got: at(ts, i + 1) })),
    }
}

/// An expression that binds tighter than `precedence`: a prefix production,
/// folded with the infix, index and call operators that follow it. Where
/// the prefix production parses nothing, nothing is folded.
#[verifier::opaque]
pub open spec fn parse_expr(
    precedence: Precedence,
    ts: Seq<TokenV>,
    i: nat,
    errors: Seq<ParseErrorV>,
) -> Parsed<ExprV>
    decreases remaining(ts, i), 3nat, 1nat,
{
    let first = lead(ts, i, errors);
    match first.node {
        None => first,
        Some(x) => shift(expr_loop(precedence, x, ts, i + first.used, first.errors), first.used),
    }
}

/// The operator production that the current token begins, applied to
/// `left`: an infix operator with its right operand, an index in brackets,
/// a name after a dot, or the arguments of a call.
#[verifier::opaque]
pub open spec fn fold(
    left: ExprV,
    ts: Seq<TokenV>,
    i: nat,
    errors: Seq<ParseErrorV>,
) -> Parsed<ExprV>
    decreases remaining(ts, i), 7nat, 1nat,
{
    let t = at(ts, i);
    if infix_of(t) is Some {
        infix_expr(left, ts, i, errors)
    } else if t == TokenV::LBracket {
        index_expr(left, ts, i, errors)
    } else if t == TokenV::Dot {
        dot_index_expr(left, ts, i, errors)
    } else {
        call_expr(left, ts, i, errors)
    }
}

/// Folds `left` with the operators that follow it, as long as the next
/// token is no semicolon and binds tighter than `precedence`. Where an
/// operator production parses nothing, the folding ends with nothing.
#[verifier::opaque]
pub open spec fn expr_loop(
    precedence: Precedence,
    left: ExprV,
    ts: Seq<TokenV>,
    i: nat,
    errors: Seq<ParseErrorV>,
) -> Parsed<ExprV>
    decreases remaining(ts, i), 2nat, 1nat,
{
    let next = at(ts, i + 1);
    if next != TokenV::Semicolon && precedence.rank() < precedence_of(next).rank() {
        let r = fold(left, ts, i + 1, errors);
        match r.node {
            None => shift(r, 1),
            Some(x) => shift(
                expr_loop(precedence, x, ts, i + 1 + r.used, r.errors),
                1 + r.used,
            ),
        }
    } else {
        done(left, 0, errors)
    }
}

/// An infix operator, which is the current token, and its right operand.
#[verifier::opaque]
pub open spec fn infix_expr(
    left: ExprV,
    ts: Seq<TokenV>,
    i: nat,
    errors: Seq<ParseErrorV>,
) -> Parsed<ExprV>
    decreases remaining(ts, i), 7nat, 0nat,
{
    match infix_of(at(ts, i)) {
        None => fail(0, errors),
        Some(op) => {
            let r = parse_expr(precedence_of(at(ts, i)), ts, i + 1, errors);
            Parsed {
                node: match r.node {
                    Some(right) => Some(ExprV::Infix(op, Box::new(left), Box::new(right))),
                    None => None,
                },
                used: 1 + r.used,
                errors: r.errors,
            }
        },
    }
}

/// An index in brackets; the opening bracket is the current token.
#[verifier::opaque]
pub open spec fn index_expr(
    left: ExprV,
    ts: Seq<TokenV>,
    i: nat,
    errors: Seq<ParseErrorV>,
) -> Parsed<ExprV>
    decreases remaining(ts, i), 7nat, 0nat,
{
    let x = parse_expr(Precedence::Lowest, ts, i + 1, errors);
    match x.node {
        None => fail(1 + x.used, x.errors),
        Some(index) => if at(ts, i + 1 + x.used + 1) != TokenV::RBracket {
            fail(1 + x.used, expected(x.errors, TokenV::RBracket, ts, i + 1 + x.used + 1))
        } else {
            done(ExprV::Index(Box::new(left), Box::new(index)), 1 + x.used + 1, x.errors)
        },
    }
}

/// A name after a dot, which is the current token: the same as an index by
/// the name as a string.
pub open spec fn dot_index_expr(
    left: ExprV,
    ts: Seq<TokenV>,
    i: nat,
    errors: Seq<ParseErrorV>,
) -> Parsed<ExprV> {
    match at(ts, i + 1) {
        TokenV::Ident(name) => done(
            ExprV::Index(Box::new(left), Box::new(ExprV::Literal(LiteralV::String(name)))),
            1,
            errors,
        ),
        _ => fail(1, expected_name(errors, ts, i + 1)),
    }
}

/// The arguments of a call; the opening parenthesis is the current token.
#[verifier::opaque]
pub open spec fn call_expr(
    func: ExprV,
    ts: Seq<TokenV>,
    i: nat,
    errors: Seq<ParseErrorV>,
) -> Parsed<ExprV>
    decreases remaining(ts, i), 7nat, 0nat,
{
    let l = shift(list_tail(TokenV::RParen, ts, i + 1, errors), 1);
    Parsed {
        node: match l.node {
            Some(args) => Some(ExprV::Call { func: Box::new(func), args }),
            None => None,
        },
        used: l.used,
        errors: l.errors,
    }
}

/// A list of expressions after its opening delimiter: the current token is
/// the first of the first item, or `end`, which closes the list.
#[verifier::opaque]
pub open spec fn list_tail(
    end: TokenV,
    ts: Seq<TokenV>,
    i: nat,
    errors: Seq<ParseErrorV>,
) -> Parsed<Seq<ExprV>>
    decreases remaining(ts, i), 6nat, 0nat,
{
    if at(ts, i) == end {
        done(Seq::empty(), 0, errors)
    } else {
        let e = parse_expr(Precedence::Lowest, ts, i, errors);
        match e.node {
            None => fail(e.used, e.errors),
            Some(x) => shift(list_loop(end, ts, i + e.used, e.errors, seq![x]), e.used),
        }
    }
}

/// A list of expressions after its first item: each comma brings one more
/// item, and `end` closes the list.
#[verifier::opaque]
pub open spec fn list_loop(
    end: TokenV,
    ts: Seq<TokenV>,
    i: nat,
    errors: Seq<ParseErrorV>,
    acc: Seq<ExprV>,
) -> Parsed<Seq<ExprV>>
    decreases remaining(ts, i), 5nat, 0nat,
{
    if at(ts, i + 1) == TokenV::Comma {
        if at(ts, i + 2) == TokenV::Eof {
            fail(2, expected(errors, TokenV::Ident("ident"@), ts, i + 3))
        } else {
            let e = parse_expr(Precedence::Lowest, ts, i + 2, errors);
            match e.node {
                None => fail(2 + e.used, e.errors),
                Some(x) => shift(
                    list_loop(end, ts, i + 2 + e.used, e.errors, acc.push(x)),
                    2 + e.used,
                ),
            }
        }
    } else if at(ts, i + 1) != end {
        fail(0, expected(errors, end, ts, i + 1))
    } else {
        done(acc, 1, errors)
    }
}

/// The pairs of a hash literal after its opening brace: the current token
/// is the first of a key, or the closing brace.
#[verifier::opaque]
pub open spec fn hash_tail(
    ts: Seq<TokenV>,
    i: nat,
    errors: Seq<ParseErrorV>,
    acc: Seq<(ExprV, ExprV)>,
) -> Parsed<ExprV>
    decreases remaining(ts, i), 6nat, 0nat,
{
    if at(ts, i) == TokenV::RBrace {
        done(ExprV::Literal(LiteralV::Hash(acc)), 0, errors)
    } else {
        let k = parse_expr(Precedence::Lowest, ts, i, errors);
        match k.node {
            None => fail(k.used, k.errors),
            Some(key) => if at(ts, i + k.used + 1) != TokenV::Colon {
                fail(k.used, expected(k.errors, TokenV::Colon, ts, i + k.used + 1))
            } else {
                let v = parse_expr(Precedence::Lowest, ts, i + k.used + 2, k.errors);
                let n = k.used + 2 + v.used;
                match v.node {
                    None => fail(n, v.errors),
                    Some(value) => if at(ts, i + n + 1) == TokenV::RBrace {
                        done(
                            ExprV::Literal(LiteralV::Hash(acc.push((key, value)))),
                            n + 1,
                            v.errors,
                        )
                    } else if at(ts, i + n + 1) != TokenV::Comma {
                        fail(n, expected(v.errors, TokenV::Comma, ts, i + n + 1))
                    } else {
                        shift(
                            hash_tail(ts, i + n + 2, v.errors, acc.push((key, value))),
                            n + 2,
                        )
                    },
                }
            },
        }
    }
}

/// An expression in parentheses, after the opening parenthesis.
#[verifier::opaque]
pub open spec fn grouped_tail(ts: Seq<TokenV>, i: nat, errors: Seq<ParseErrorV>) -> Parsed<ExprV>
    decreases remaining(ts, i), 6nat, 0nat,
{
    let e = parse_expr(Precedence::Lowest, ts, i, errors);
    if at(ts, i + e.used + 1) != TokenV::RParen {
        fail(e.used, expected(e.errors, TokenV::RParen, ts, i + e.used + 1))
    } else {
        Parsed { node: e.node, used: e.used + 1, errors: e.errors }
    }
}

/// A prefix operator, which is the current token, and its operand.
#[verifier::opaque]
pub open spec fn prefix_expr(ts: Seq<TokenV>, i: nat, errors: Seq<ParseErrorV>) -> Parsed<ExprV>
    decreases remaining(ts, i), 2nat, 5nat,
{
    match prefix_of(at(ts, i)) {
        None => fail(0, errors),
        Some(op) => {
            let r = parse_expr(Precedence::Prefix, ts, i + 1, errors);
            Parsed {
                node: match r.node {
                    Some(x) => Some(ExprV::Prefix(op, Box::new(x))),
                    None => None,
                },
                used: 1 + r.used,
                errors: r.errors,
            }
        },
    }
}

/// `if`, a condition in parentheses, a block, and an optional `else` with
/// its block.
#[verifier::opaque]
pub open spec fn if_expr(ts: Seq<TokenV>, i: nat, errors: Seq<ParseErrorV>) -> Parsed<ExprV>
    decreases remaining(ts, i), 2nat, 5nat,
{
    if at(ts, i + 1) != TokenV::LParen {
        fail(0, expected(errors, TokenV::LParen, ts, i + 1))
    } else {
        let c = parse_expr(Precedence::Lowest, ts, i + 2, errors);
        let n = 2 + c.used;
        match c.node {
            None => fail(n, c.errors),
            Some(cond) => if at(ts, i + n + 1) != TokenV::RParen {
                fail(n, expected(c.errors, TokenV::RParen, ts, i + n + 1))
            } else if at(ts, i + n + 2) != TokenV::LBrace {
                fail(n + 1, expected(c.errors, TokenV::LBrace, ts, i + n + 2))
            } else {
                let b = block_loop(ts, i + n + 3, c.errors, Seq::empty());
                let m = n + 3 + b.used;
                if at(ts, i + m + 1) == TokenV::Else {
                    if at(ts, i + m + 2) != TokenV::LBrace {
                        fail(m + 1, expected(b.errors, TokenV::LBrace, ts, i + m + 2))
                    } else {
                        let a = block_loop(ts, i + m + 3, b.errors, Seq::empty());
                        done(
                            ExprV::If {
                                cond: Box::new(cond),
                                consequence: block_of(b),
                                alternative: Some(block_of(a)),
                            },
                            m + 3 + a.used,
                            a.errors,
                        )
                    }
                } else {
                    done(
                        ExprV::If {
                            cond: Box::new(cond),
                            consequence: block_of(b),
                            alternative: None,
                        },
                        m,
                        b.errors,
                    )
                }
            },
        }
    }
}

/// `while`, a condition in parentheses and a block.
#[verifier::opaque]
pub open spec fn while_expr(ts: Seq<TokenV>, i: nat, errors: Seq<ParseErrorV>) -> Parsed<ExprV>
    decreases remaining(ts, i), 2nat, 5nat,
{
    if at(ts, i + 1) != TokenV::LParen {
        fail(0, expected(errors, TokenV::LParen, ts, i + 1))
    } else {
        let c = parse_expr(Precedence::Lowest, ts, i + 2, errors);
        let n = 2 + c.used;
        match c.node {
            None => fail(n, c.errors),
            Some(cond) => if at(ts, i + n + 1) != TokenV::RParen {
                fail(n, expected(c.errors, TokenV::RParen, ts, i + n + 1))
            } else if at(ts, i + n + 2) != TokenV::LBrace {
                fail(n + 1, expected(c.errors, TokenV::LBrace, ts, i + n + 2))
            } else {
                let b = block_loop(ts, i + n + 3, c.errors, Seq::empty());
                done(
                    ExprV::While { cond: Box::new(cond), consequence: block_of(b) },
                    n + 3 + b.used,
                    b.errors,
                )
            },
        }
    }
}

/// `fn`, a parameter list in parentheses and a block.
#[verifier::opaque]
pub open spec fn function_expr(ts: Seq<TokenV>, i: nat, errors: Seq<ParseErrorV>) -> Parsed<ExprV>
    decreases remaining(ts, i), 2nat, 5nat,
{
    if at(ts, i + 1) != TokenV::LParen {
        fail(0, expected(errors, TokenV::LParen, ts, i + 1))
    } else {
        let p = function_args(ts, i + 1, errors);
        let n = 1 + p.used;
        match p.node {
            None => fail(n, p.errors),
            Some(params) => if at(ts, i + n + 1) != TokenV::LBrace {
                fail(n, expected(p.errors, TokenV::LBrace, ts, i + n + 1))
            } else {
                let b = block_loop(ts, i + n + 2, p.errors, Seq::empty());
                done(ExprV::Function { params, body: block_of(b) }, n + 2 + b.used, b.errors)
            },
        }
    }
}

/// The statements of a program: one statement after the other up to the
/// end of the tokens. A statement that does not parse is left out.
#[verifier::opaque]
pub open spec fn program(
    ts: Seq<TokenV>,
    i: nat,
    errors: Seq<ParseErrorV>,
    acc: Seq<StmtV>,
) -> Parsed<Seq<StmtV>>
    decreases remaining(ts, i),
{
    if at(ts, i) == TokenV::Eof {
        done(acc, 0, errors)
    } else {
        let s = parse_stmt(ts, i, errors);
        shift(
            program(
                ts, i + s.used + 1,
                s.errors,
                match s.node {
                    Some(x) => acc.push(x),
                    None => acc,
                },
            ),
            s.used + 1,
        )
    }
}

} // verus!
