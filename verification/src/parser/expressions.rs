//! The productions of expressions.

use crate::ast::{
    exprs_view, idents_view, pairs_view, Expr, ExprV, Ident, Infix, LiteralV, Precedence, Prefix,
};
use crate::parser::base::{expr_opt, exprs_opt, idents_opt, landed, Parser};
use crate::parser::grammar::{
    array_expr, block_loop, call_expr, dot_index_expr, expr_loop, fold, function_args,
    function_expr, grouped_tail, hash_tail, if_expr, index_expr, infix_expr, lead, list_loop,
    list_tail, while_expr,
    params_loop, parse_expr, precedence_of, prefix_expr, shift,
};
use crate::parser::stream::{at, remaining};
use crate::token::{Token, TokenV};
use vstd::prelude::*;
use vstd::string::StringExecFns;

verus! {

impl Parser {
    /// The prefix production that the current token begins.
    pub(crate) fn parse_lead(&mut self) -> (r: Option<Expr>)
        requires
            old(self).wf(),
        ensures
            final(self).wf(),
            expr_opt(r) == lead(old(self)@.tokens, old(self)@.pos, old(self)@.errors).node,
            landed(
                old(self)@,
                final(self)@,
                lead(old(self)@.tokens, old(self)@.pos, old(self)@.errors),
            ),
        decreases remaining(old(self)@.tokens, old(self)@.pos), 3nat, 0nat,
    {
        proof {
            reveal(array_expr);
            reveal(hash_tail);
            reveal(grouped_tail);
            reveal(prefix_expr);
            reveal(if_expr);
            reveal(while_expr);
            reveal(function_expr);
            reveal(lead);
        }
        match self.current() {
            Token::Ident(_) => self.parse_ident_expr(),
            Token::Int(_) => self.parse_int_expr(),
            Token::String(_) => self.parse_string_expr(),
            Token::Bool(_) => self.parse_bool_expr(),
            Token::LBracket => self.parse_array_expr(),
            Token::LBrace => self.parse_hash_expr(),
            Token::LParen => self.parse_grouped_expr(),
            Token::Bang | Token::Minus | Token::Plus => self.parse_prefix_expr(),
            Token::If => self.parse_if_expr(),
            Token::While => self.parse_while_expr(),
            Token::Function => self.parse_function_expr(),
            _ => {
                self.error_no_prefix_parser();
                None
            },
        }
    }

    /// The operator production that the next token begins, applied to
    /// `left`.
    pub(crate) fn parse_fold(&mut self, left: Expr) -> (r: Option<Expr>)
        requires
            old(self).wf(),
            precedence_of(at(old(self)@.tokens, old(self)@.pos + 1)) != Precedence::Lowest,
        ensures
            final(self).wf(),
            expr_opt(r) == fold(
                left@,
                old(self)@.tokens,
                old(self)@.pos + 1,
                old(self)@.errors,
            ).node,
            landed(
                old(self)@,
                final(self)@,
                shift(fold(left@, old(self)@.tokens, old(self)@.pos + 1, old(self)@.errors), 1),
            ),
        decreases remaining(old(self)@.tokens, old(self)@.pos), 2nat, 0nat,
    {
        proof {
            reveal(infix_expr);
            reveal(index_expr);
            reveal(call_expr);
            reveal(fold);
        }
        self.walk_token();
        match self.current() {
            Token::Plus
            | Token::Minus
            | Token::Slash
            | Token::Asterisk
            | Token::Equal
            | Token::NotEqual
            | Token::LT
            | Token::LTEQ
            | Token::GT
            | Token::GTEQ => self.parse_infix_expr(left),
            Token::LBracket => self.parse_index_expr(left),
            Token::Dot => self.parse_dot_index_expr(left),
            _ => self.parse_call_expr(left),
        }
    }

    /// An expression that binds tighter than `precedence`: a prefix
    /// production, folded with the operators that follow it and bind
    /// tighter.
    #[verifier::loop_isolation(false)]
    pub(crate) fn parse_expr(&mut self, precedence: Precedence) -> (r: Option<Expr>)
        requires
            old(self).wf(),
        ensures
            final(self).wf(),
            expr_opt(r) == parse_expr(
                precedence,
                old(self)@.tokens,
                old(self)@.pos,
                old(self)@.errors,
            ).node,
            landed(
                old(self)@,
                final(self)@,
                parse_expr(precedence, old(self)@.tokens, old(self)@.pos, old(self)@.errors),
            ),
        decreases remaining(old(self)@.tokens, old(self)@.pos), 3nat, 1nat,
    {
        proof {
            reveal(expr_loop);
            reveal(lead);
            reveal(fold);
            reveal(parse_expr);
        }
        let ghost total = parse_expr(
            precedence,
            old(self)@.tokens,
            old(self)@.pos,
            old(self)@.errors,
        );
        let mut left = match self.parse_lead() {
            Some(expr) => expr,
            None => {
                return None;
            },
        };
        //
        // recursive to parse the higher precedence right expr
        //
        while !self.next_token_is(Token::Semicolon) && precedence.to_rank()
            < self.next_token_precedence().to_rank()
            invariant
                self.wf(),
                self@.tokens == old(self)@.tokens,
                self@.pos >= old(self)@.pos,
                expr_loop(precedence, left@, self@.tokens, self@.pos, self@.errors).node
                    == total.node,
                expr_loop(precedence, left@, self@.tokens, self@.pos, self@.errors).errors
                    == total.errors,
                expr_loop(precedence, left@, self@.tokens, self@.pos, self@.errors).used
                    + self@.pos == total.used + old(self)@.pos,
            decreases remaining(self@.tokens, self@.pos),
        {
            proof {
                reveal(expr_loop);
                reveal(fold);
            }
            left = match self.parse_fold(left) {
                Some(expr) => expr,
                None => {
                    return None;
                },
            };
        }
        proof {
            reveal(expr_loop);
        }
        Some(left)
    }

    /// The current token as a name.
    pub(crate) fn parse_ident_expr(&self) -> (r: Option<Expr>)
        requires
            self.wf(),
        ensures
            match at(self@.tokens, self@.pos) {
                TokenV::Ident(name) => expr_opt(r) == Some(ExprV::Ident(name)),
                _ => r is None,
            },
    {
        match self.parse_ident() {
            Some(i) => Some(Expr::Ident(i)),
            None => None,
        }
    }

    /// The current token as the literal of a number.
    pub(crate) fn parse_int_expr(&self) -> (r: Option<Expr>)
        requires
            self.wf(),
        ensures
            match at(self@.tokens, self@.pos) {
                TokenV::Int(i) => expr_opt(r) == Some(ExprV::Literal(LiteralV::Int(i))),
                _ => r is None,
            },
    {
        match self.current() {
            Token::Int(value) => Some(Expr::number(*value)),
            _ => None,
        }
    }

    /// The current token as the literal of a text.
    pub(crate) fn parse_string_expr(&self) -> (r: Option<Expr>)
        requires
            self.wf(),
        ensures
            match at(self@.tokens, self@.pos) {
                TokenV::String(s) => expr_opt(r) == Some(ExprV::Literal(LiteralV::String(s))),
                _ => r is None,
            },
    {
        match self.current() {
            Token::String(s) => Some(Expr::text(s.clone())),
            _ => None,
        }
    }

    /// The current token as the literal of a truth value.
    pub(crate) fn parse_bool_expr(&self) -> (r: Option<Expr>)
        requires
            self.wf(),
        ensures
            match at(self@.tokens, self@.pos) {
                TokenV::Bool(b) => expr_opt(r) == Some(ExprV::Literal(LiteralV::Bool(b))),
                _ => r is None,
            },
    {
        match self.current() {
            Token::Bool(value) => Some(Expr::boolean(*value)),
            _ => None,
        }
    }

    /// An array literal; the opening bracket is the current token.
    pub(crate) fn parse_array_expr(&mut self) -> (r: Option<Expr>)
        requires
            old(self).wf(),
            old(self)@.pos < old(self)@.tokens.len(),
        ensures
            final(self).wf(),
            expr_opt(r) == array_expr(old(self)@.tokens, old(self)@.pos, old(self)@.errors).node,
            landed(
                old(self)@,
                final(self)@,
                array_expr(old(self)@.tokens, old(self)@.pos, old(self)@.errors),
            ),
        decreases remaining(old(self)@.tokens, old(self)@.pos), 2nat, 5nat,
    {
        proof {
            reveal(list_tail);
            reveal(array_expr);
        }
        match self.parse_expr_list(Token::RBracket) {
            Some(list) => Some(Expr::array(list)),
            None => None,
        }
    }

    /// A hash literal; the opening brace is the current token.
    #[verifier::loop_isolation(false)]
    pub(crate) fn parse_hash_expr(&mut self) -> (r: Option<Expr>)
        requires
            old(self).wf(),
            old(self)@.pos < old(self)@.tokens.len(),
        ensures
            final(self).wf(),
            expr_opt(r) == hash_tail(
                old(self)@.tokens,
                old(self)@.pos + 1,
                old(self)@.errors,
                Seq::empty(),
            ).node,
            landed(
                old(self)@,
                final(self)@,
                shift(
                    hash_tail(
                        old(self)@.tokens,
                        old(self)@.pos + 1,
                        old(self)@.errors,
                        Seq::empty(),
                    ),
                    1,
                ),
            ),
        decreases remaining(old(self)@.tokens, old(self)@.pos), 2nat, 5nat,
    {
        let mut pairs: Vec<(Expr, Expr)> = Vec::new();
        let ghost total = hash_tail(
            old(self)@.tokens,
            old(self)@.pos + 1,
            old(self)@.errors,
            Seq::empty(),
        );
        assert(pairs_view(pairs) =~= Seq::<(ExprV, ExprV)>::empty());
        while !self.next_token_is(Token::RBrace)
            invariant
                self.wf(),
                self@.pos < self@.tokens.len(),
                self@.tokens == old(self)@.tokens,
                self@.pos >= old(self)@.pos,
                hash_tail(self@.tokens, self@.pos + 1, self@.errors, pairs_view(pairs)).node
                    == total.node,
                hash_tail(self@.tokens, self@.pos + 1, self@.errors, pairs_view(pairs)).errors
                    == total.errors,
                hash_tail(self@.tokens, self@.pos + 1, self@.errors, pairs_view(pairs)).used
                    + self@.pos == total.used + old(self)@.pos,
            decreases remaining(self@.tokens, self@.pos),
        {
            proof {
                reveal(hash_tail);
                reveal(parse_expr);
            }
            let ghost acc = pairs_view(pairs);
            self.walk_token();
            let key = match self.parse_expr(Precedence::Lowest) {
                Some(expr) => expr,
                None => {
                    return None;
                },
            };
            if !self.assert_next_token(Token::Colon) {
                return None;
            }
            self.walk_token();
            self.walk_token();
            let value = match self.parse_expr(Precedence::Lowest) {
                Some(expr) => expr,
                None => {
                    return None;
                },
            };
            pairs.push((key, value));
            assert(pairs_view(pairs) =~= acc.push((key@, value@)));
            if !self.next_token_is(Token::RBrace) {
                if !self.assert_next_token(Token::Comma) {
                    return None;
                }
                self.walk_token();
            }
        }
        proof {
            reveal(hash_tail);
        }
        self.walk_token();
        Some(Expr::hash(pairs))
    }

    /// A list of expressions up to the token `end`; the opening delimiter
    /// is the current token.
    #[verifier::loop_isolation(false)]
    pub(crate) fn parse_expr_list(&mut self, end: Token) -> (r: Option<Vec<Expr>>)
        requires
            old(self).wf(),
            old(self)@.pos < old(self)@.tokens.len(),
        ensures
            final(self).wf(),
            exprs_opt(r) == list_tail(
                end@,
                old(self)@.tokens,
                old(self)@.pos + 1,
                old(self)@.errors,
            ).node,
            landed(
                old(self)@,
                final(self)@,
                shift(list_tail(end@, old(self)@.tokens, old(self)@.pos + 1, old(self)@.errors), 1),
            ),
        decreases remaining(old(self)@.tokens, old(self)@.pos), 2nat, 4nat,
    {
        proof {
            reveal(list_loop);
            reveal(parse_expr);
            reveal(list_tail);
        }
        let ghost total = list_tail(end@, old(self)@.tokens, old(self)@.pos + 1, old(self)@.errors);
        let mut list: Vec<Expr> = Vec::new();
        if self.next_token_borrow_is(&end) {
            self.walk_token();
            assert(exprs_view(list) =~= Seq::<ExprV>::empty());
            return Some(list);
        }
        self.walk_token();
        match self.parse_expr(Precedence::Lowest) {
            Some(expr) => {
                list.push(expr);
                assert(exprs_view(list) =~= seq![expr@]);
            },
            None => {
                return None;
            },
        }
        while self.next_token_is(Token::Comma)
            invariant
                self.wf(),
                old(self)@.pos < old(self)@.tokens.len(),
                self@.tokens == old(self)@.tokens,
                self@.pos > old(self)@.pos,
                list_loop(end@, self@.tokens, self@.pos, self@.errors, exprs_view(list)).node
                    == total.node,
                list_loop(end@, self@.tokens, self@.pos, self@.errors, exprs_view(list)).errors
                    == total.errors,
                list_loop(end@, self@.tokens, self@.pos, self@.errors, exprs_view(list)).used
                    + self@.pos == total.used + old(self)@.pos + 1,
            decreases remaining(self@.tokens, self@.pos),
        {
            proof {
                reveal(list_loop);
                reveal(parse_expr);
            }
            let ghost acc = exprs_view(list);
            self.walk_token();
            self.walk_token();
            if self.current_token_is(Token::Eof) {
                self.error_next_token(Token::Ident(String::from_str("ident")));
                return None;
            }
            match self.parse_expr(Precedence::Lowest) {
                Some(expr) => {
                    list.push(expr);
                    assert(exprs_view(list) =~= acc.push(expr@));
                },
                None => {
                    return None;
                },
            }
        }
        proof {
            reveal(list_loop);
        }
        if !self.assert_next_token(end) {
            return None;
        }
        self.walk_token();
        Some(list)
    }

    /// A prefix operator, which is the current token, and its operand.
    pub(crate) fn parse_prefix_expr(&mut self) -> (r: Option<Expr>)
        requires
            old(self).wf(),
        ensures
            final(self).wf(),
            expr_opt(r) == prefix_expr(old(self)@.tokens, old(self)@.pos, old(self)@.errors).node,
            landed(
                old(self)@,
                final(self)@,
                prefix_expr(old(self)@.tokens, old(self)@.pos, old(self)@.errors),
            ),
        decreases remaining(old(self)@.tokens, old(self)@.pos), 2nat, 5nat,
    {
        proof {
            reveal(parse_expr);
            reveal(prefix_expr);
        }
        let prefix = match self.current() {
            Token::Bang => Prefix::Not,
            Token::Minus => Prefix::Minus,
            Token::Plus => Prefix::Plus,
            _ => {
                return None;
            },
        };
        self.walk_token();
        match self.parse_expr(Precedence::Prefix) {
            Some(expr) => Some(Expr::Prefix(prefix, Box::new(expr))),
            None => None,
        }
    }

    /// An infix operator, which is the current token, and its right
    /// operand.
    pub(crate) fn parse_infix_expr(&mut self, left: Expr) -> (r: Option<Expr>)
        requires
            old(self).wf(),
        ensures
            final(self).wf(),
            expr_opt(r) == infix_expr(
                left@,
                old(self)@.tokens,
                old(self)@.pos,
                old(self)@.errors,
            ).node,
            landed(
                old(self)@,
                final(self)@,
                infix_expr(left@, old(self)@.tokens, old(self)@.pos, old(self)@.errors),
            ),
        decreases remaining(old(self)@.tokens, old(self)@.pos), 7nat, 0nat,
    {
        proof {
            reveal(parse_expr);
            reveal(infix_expr);
        }
        let infix = match self.current() {
            Token::Plus => Infix::Plus,
            Token::Minus => Infix::Minus,
            Token::Slash => Infix::Divide,
            Token::Asterisk => Infix::Multiply,
            Token::Equal => Infix::Equal,
            Token::NotEqual => Infix::NotEqual,
            Token::LT => Infix::LT,
            Token::LTEQ => Infix::LTEQ,
            Token::GT => Infix::GT,
            Token::GTEQ => Infix::GTEQ,
            _ => {
                return None;
            },
        };
        let precedence = self.current_token_precedence();
        self.walk_token();
        match self.parse_expr(precedence) {
            Some(right_expr) => Some(Expr::Infix(infix, Box::new(left), Box::new(right_expr))),
            None => None,
        }
    }

    /// An index in brackets; the opening bracket is the current token.
    pub(crate) fn parse_index_expr(&mut self, left: Expr) -> (r: Option<Expr>)
        requires
            old(self).wf(),
        ensures
            final(self).wf(),
            expr_opt(r) == index_expr(
                left@,
                old(self)@.tokens,
                old(self)@.pos,
                old(self)@.errors,
            ).node,
            landed(
                old(self)@,
                final(self)@,
                index_expr(left@, old(self)@.tokens, old(self)@.pos, old(self)@.errors),
            ),
        decreases remaining(old(self)@.tokens, old(self)@.pos), 7nat, 0nat,
    {
        proof {
            reveal(parse_expr);
            reveal(index_expr);
        }
        self.walk_token();
        let index = match self.parse_expr(Precedence::Lowest) {
            Some(expr) => expr,
            None => {
                return None;
            },
        };
        if !self.assert_next_token(Token::RBracket) {
            return None;
        }
        self.walk_token();
        Some(Expr::Index(Box::new(left), Box::new(index)))
    }

    /// A name after a dot, which is the current token.
    pub(crate) fn parse_dot_index_expr(&mut self, left: Expr) -> (r: Option<Expr>)
        requires
            old(self).wf(),
        ensures
            final(self).wf(),
            expr_opt(r) == dot_index_expr(
                left@,
                old(self)@.tokens,
                old(self)@.pos,
                old(self)@.errors,
            ).node,
            landed(
                old(self)@,
                final(self)@,
                dot_index_expr(left@, old(self)@.tokens, old(self)@.pos, old(self)@.errors),
            ),
    {
        self.walk_token();
        match self.parse_ident() {
            Some(name) => {
                let Ident(str) = name;
                Some(Expr::Index(Box::new(left), Box::new(Expr::text(str))))
            },
            None => {
                self.error_current_token();
                None
            },
        }
    }

    /// An expression in parentheses; the opening parenthesis is the
    /// current token.
    pub(crate) fn parse_grouped_expr(&mut self) -> (r: Option<Expr>)
        requires
            old(self).wf(),
            old(self)@.pos < old(self)@.tokens.len(),
        ensures
            final(self).wf(),
            expr_opt(r) == grouped_tail(
                old(self)@.tokens,
                old(self)@.pos + 1,
                old(self)@.errors,
            ).node,
            landed(
                old(self)@,
                final(self)@,
                shift(grouped_tail(old(self)@.tokens, old(self)@.pos + 1, old(self)@.errors), 1),
            ),
        decreases remaining(old(self)@.tokens, old(self)@.pos), 2nat, 5nat,
    {
        proof {
            reveal(parse_expr);
            reveal(grouped_tail);
        }
        self.walk_token();
        let expr = self.parse_expr(Precedence::Lowest);
        if !self.assert_next_token(Token::RParen) {
            None
        } else {
            self.walk_token();
            expr
        }
    }
}

impl Parser {
    /// A function literal; `fn` is the current token.
    pub(crate) fn parse_function_expr(&mut self) -> (r: Option<Expr>)
        requires
            old(self).wf(),
        ensures
            final(self).wf(),
            expr_opt(r) == function_expr(
                old(self)@.tokens,
                old(self)@.pos,
                old(self)@.errors,
            ).node,
            landed(
                old(self)@,
                final(self)@,
                function_expr(old(self)@.tokens, old(self)@.pos, old(self)@.errors),
            ),
        decreases remaining(old(self)@.tokens, old(self)@.pos), 2nat, 5nat,
    {
        proof {
            reveal(block_loop);
            reveal(function_expr);
        }
        if !self.assert_next_token(Token::LParen) {
            return None;
        }
        self.walk_token();
        let params = match self.parse_function_args() {
            Some(params) => params,
            None => {
                return None;
            },
        };
        if !self.assert_next_token(Token::LBrace) {
            return None;
        }
        self.walk_token();
        let body = self.parse_block_stmt();
        Some(Expr::Function { params, body })
    }

    /// A parameter list; the opening parenthesis is the current token.
    #[verifier::loop_isolation(false)]
    pub(crate) fn parse_function_args(&mut self) -> (r: Option<Vec<Ident>>)
        requires
            old(self).wf(),
        ensures
            final(self).wf(),
            idents_opt(r) == function_args(
                old(self)@.tokens,
                old(self)@.pos,
                old(self)@.errors,
            ).node,
            landed(
                old(self)@,
                final(self)@,
                function_args(old(self)@.tokens, old(self)@.pos, old(self)@.errors),
            ),
    {
        let ghost total = function_args(old(self)@.tokens, old(self)@.pos, old(self)@.errors);
        let mut args: Vec<Ident> = Vec::new();
        if self.next_token_is(Token::RParen) {
            self.walk_token();
            assert(idents_view(args) =~= Seq::<Seq<char>>::empty());
            return Some(args);
        }
        self.walk_token();
        match self.parse_ident() {
            Some(ident) => {
                args.push(ident);
                assert(idents_view(args) =~= seq![ident@]);
            },
            None => {
                self.error_current_token();
                return None;
            },
        }
        while self.next_token_is(Token::Comma)
            invariant
                self.wf(),
                self@.tokens == old(self)@.tokens,
                self@.pos > old(self)@.pos,
                params_loop(self@.tokens, self@.pos, self@.errors, idents_view(args)).node
                    == total.node,
                params_loop(self@.tokens, self@.pos, self@.errors, idents_view(args)).errors
                    == total.errors,
                params_loop(self@.tokens, self@.pos, self@.errors, idents_view(args)).used
                    + self@.pos == total.used + old(self)@.pos,
            decreases remaining(self@.tokens, self@.pos),
        {
            proof {
                reveal(params_loop);
            }
            let ghost acc = idents_view(args);
            self.walk_token();
            self.walk_token();
            match self.parse_ident() {
                Some(ident) => {
                    args.push(ident);
                    assert(idents_view(args) =~= acc.push(ident@));
                },
                None => {
                    self.error_current_token();
                    return None;
                },
            }
        }
        proof {
            reveal(params_loop);
        }
        if !self.assert_next_token(Token::RParen) {
            return None;
        }
        self.walk_token();
        Some(args)
    }

    /// The call of `func_name`; the opening parenthesis of the arguments is
    /// the current token.
    pub(crate) fn parse_call_expr(&mut self, func_name: Expr) -> (r: Option<Expr>)
        requires
            old(self).wf(),
            old(self)@.pos < old(self)@.tokens.len(),
        ensures
            final(self).wf(),
            expr_opt(r) == call_expr(
                func_name@,
                old(self)@.tokens,
                old(self)@.pos,
                old(self)@.errors,
            ).node,
            landed(
                old(self)@,
                final(self)@,
                call_expr(func_name@, old(self)@.tokens, old(self)@.pos, old(self)@.errors),
            ),
        decreases remaining(old(self)@.tokens, old(self)@.pos), 7nat, 0nat,
    {
        proof {
            reveal(list_tail);
            reveal(call_expr);
        }
        let args = match self.parse_expr_list(Token::RParen) {
            Some(args) => args,
            None => {
                return None;
            },
        };
        Some(Expr::Call { func: Box::new(func_name), args })
    }
}

} // verus!
