//! The productions of statements, conditions and blocks.

use crate::ast::{block_view, BlockStmt, Expr, Precedence, Stmt, StmtV};
use crate::parser::base::{expr_opt, landed, stmt_opt, Parser};
use crate::parser::grammar::{
    block_loop, expr_stmt, if_expr, let_stmt, parse_expr, parse_stmt, reassign_stmt, return_stmt,
    semicolon, shift, while_expr,
};
use crate::parser::stream::{at, remaining};
use crate::token::Token;
use vstd::prelude::*;
use vstd::string::StringExecFns;

verus! {

impl Parser {
    /// Whether the next token is an identifier.
    pub(crate) fn next_token_is_ident(&self) -> (r: bool)
        requires
            self.wf(),
        ensures
            r == (at(self@.tokens, self@.pos + 1) is Ident),
    {
        match self.next() {
            Token::Ident(_) => true,
            _ => false,
        }
    }

    /// `let` or `const`, a name, `=`, an expression, an optional semicolon.
    pub(crate) fn parse_binding(&mut self, constant: bool) -> (r: Option<Stmt>)
        requires
            old(self).wf(),
        ensures
            final(self).wf(),
            stmt_opt(r) == let_stmt(
                old(self)@.tokens,
                old(self)@.pos,
                old(self)@.errors,
                constant,
            ).node,
            landed(
                old(self)@,
                final(self)@,
                let_stmt(old(self)@.tokens, old(self)@.pos, old(self)@.errors, constant),
            ),
        decreases remaining(old(self)@.tokens, old(self)@.pos), 7nat, 0nat,
    {
        proof {
            reveal(let_stmt);
        }
        if !self.next_token_is_ident() {
            self.error_next_token(Token::Ident(String::from_str("ident")));
            return None;
        }
        self.walk_token();
        let name = match self.parse_ident() {
            Some(name) => name,
            None => {
                return None;
            },
        };
        if !self.assert_next_token(Token::Assign) {
            return None;
        }
        self.walk_token();
        self.walk_token();
        let expr = match self.parse_expr(Precedence::Lowest) {
            Some(expr) => expr,
            None => {
                return None;
            },
        };
        self.skip_semicolon();
        if constant {
            Some(Stmt::Const(name, expr))
        } else {
            Some(Stmt::Let(name, expr))
        }
    }

    /// A `let` statement; `let` is the current token.
    pub(crate) fn parse_let_stmt(&mut self) -> (r: Option<Stmt>)
        requires
            old(self).wf(),
        ensures
            final(self).wf(),
            stmt_opt(r) == let_stmt(
                old(self)@.tokens,
                old(self)@.pos,
                old(self)@.errors,
                false,
            ).node,
            landed(
                old(self)@,
                final(self)@,
                let_stmt(old(self)@.tokens, old(self)@.pos, old(self)@.errors, false),
            ),
        decreases remaining(old(self)@.tokens, old(self)@.pos), 8nat, 0nat,
    {
        self.parse_binding(false)
    }

    /// A `const` statement; `const` is the current token.
    pub(crate) fn parse_const_stmt(&mut self) -> (r: Option<Stmt>)
        requires
            old(self).wf(),
        ensures
            final(self).wf(),
            stmt_opt(r) == let_stmt(
                old(self)@.tokens,
                old(self)@.pos,
                old(self)@.errors,
                true,
            ).node,
            landed(
                old(self)@,
                final(self)@,
                let_stmt(old(self)@.tokens, old(self)@.pos, old(self)@.errors, true),
            ),
        decreases remaining(old(self)@.tokens, old(self)@.pos), 8nat, 0nat,
    {
        self.parse_binding(true)
    }

    /// An assignment to a name; the name is the current token.
    pub(crate) fn parse_reassign_stmt(&mut self) -> (r: Option<Stmt>)
        requires
            old(self).wf(),
        ensures
            final(self).wf(),
            stmt_opt(r) == reassign_stmt(
                old(self)@.tokens,
                old(self)@.pos,
                old(self)@.errors,
            ).node,
            landed(
                old(self)@,
                final(self)@,
                reassign_stmt(old(self)@.tokens, old(self)@.pos, old(self)@.errors),
            ),
        decreases remaining(old(self)@.tokens, old(self)@.pos), 8nat, 0nat,
    {
        proof {
            reveal(reassign_stmt);
        }
        let name = match self.parse_ident() {
            Some(name) => name,
            None => {
                return None;
            },
        };
        if !self.assert_next_token(Token::Assign) {
            return None;
        }
        self.walk_token();
        self.walk_token();
        let expr = match self.parse_expr(Precedence::Lowest) {
            Some(expr) => expr,
            None => {
                return None;
            },
        };
        self.skip_semicolon();
        Some(Stmt::ReAssign(name, expr))
    }
}

impl Parser {
    /// A condition; `if` is the current token.
    pub(crate) fn parse_if_expr(&mut self) -> (r: Option<Expr>)
        requires
            old(self).wf(),
        ensures
            final(self).wf(),
            expr_opt(r) == if_expr(old(self)@.tokens, old(self)@.pos, old(self)@.errors).node,
            landed(
                old(self)@,
                final(self)@,
                if_expr(old(self)@.tokens, old(self)@.pos, old(self)@.errors),
            ),
        decreases remaining(old(self)@.tokens, old(self)@.pos), 2nat, 5nat,
    {
        proof {
            reveal(if_expr);
            reveal(block_loop);
        }
        if !self.assert_next_token(Token::LParen) {
            return None;
        }
        self.walk_token();
        self.walk_token();
        let cond = match self.parse_expr(Precedence::Lowest) {
            Some(expr) => expr,
            None => {
                return None;
            },
        };
        if !self.assert_next_token(Token::RParen) {
            return None;
        }
        self.walk_token();
        if !self.assert_next_token(Token::LBrace) {
            return None;
        }
        self.walk_token();
        let consequence = self.parse_block_stmt();
        if self.next_token_is(Token::Else) {
            self.walk_token();
            if !self.assert_next_token(Token::LBrace) {
                return None;
            }
            self.walk_token();
            let alternative = self.parse_block_stmt();
            Some(Expr::If { cond: Box::new(cond), consequence, alternative: Some(alternative) })
        } else {
            Some(Expr::If { cond: Box::new(cond), consequence, alternative: None })
        }
    }

    /// A loop; `while` is the current token.
    pub(crate) fn parse_while_expr(&mut self) -> (r: Option<Expr>)
        requires
            old(self).wf(),
        ensures
            final(self).wf(),
            expr_opt(r) == while_expr(old(self)@.tokens, old(self)@.pos, old(self)@.errors).node,
            landed(
                old(self)@,
                final(self)@,
                while_expr(old(self)@.tokens, old(self)@.pos, old(self)@.errors),
            ),
        decreases remaining(old(self)@.tokens, old(self)@.pos), 2nat, 5nat,
    {
        proof {
            reveal(while_expr);
            reveal(block_loop);
        }
        if !self.assert_next_token(Token::LParen) {
            return None;
        }
        self.walk_token();
        self.walk_token();
        let cond = match self.parse_expr(Precedence::Lowest) {
            Some(expr) => expr,
            None => {
                return None;
            },
        };
        if !self.assert_next_token(Token::RParen) {
            return None;
        }
        self.walk_token();
        if !self.assert_next_token(Token::LBrace) {
            return None;
        }
        self.walk_token();
        let consequence = self.parse_block_stmt();
        Some(Expr::While { cond: Box::new(cond), consequence })
    }

    /// A `break`, with the token after it and a semicolon that follows.
    pub(crate) fn parse_break_stmt(&mut self) -> (r: Option<Stmt>)
        requires
            old(self).wf(),
        ensures
            final(self).wf(),
            r matches Some(s) && s@ == StmtV::Break,
            final(self)@.tokens == old(self)@.tokens,
            final(self)@.pos == old(self)@.pos + semicolon(old(self)@.tokens, old(self)@.pos, 1),
            final(self)@.errors == old(self)@.errors,
    {
        self.walk_token();
        self.skip_semicolon();
        Some(Stmt::Break)
    }

    /// A `continue`, with the token after it and a semicolon that follows.
    pub(crate) fn parse_continue_stmt(&mut self) -> (r: Option<Stmt>)
        requires
            old(self).wf(),
        ensures
            final(self).wf(),
            r matches Some(s) && s@ == StmtV::Continue,
            final(self)@.tokens == old(self)@.tokens,
            final(self)@.pos == old(self)@.pos + semicolon(old(self)@.tokens, old(self)@.pos, 1),
            final(self)@.errors == old(self)@.errors,
    {
        self.walk_token();
        self.skip_semicolon();
        Some(Stmt::Continue)
    }

    /// A `return` statement; `return` is the current token.
    pub(crate) fn parse_return_stmt(&mut self) -> (r: Option<Stmt>)
        requires
            old(self).wf(),
        ensures
            final(self).wf(),
            stmt_opt(r) == return_stmt(old(self)@.tokens, old(self)@.pos, old(self)@.errors).node,
            landed(
                old(self)@,
                final(self)@,
                return_stmt(old(self)@.tokens, old(self)@.pos, old(self)@.errors),
            ),
        decreases remaining(old(self)@.tokens, old(self)@.pos), 8nat, 0nat,
    {
        proof {
            reveal(return_stmt);
        }
        self.walk_token();
        let expr = match self.parse_expr(Precedence::Lowest) {
            Some(expr) => expr,
            _ => {
                return None;
            },
        };
        self.skip_semicolon();
        Some(Stmt::Return(expr))
    }

    /// The block whose opening brace is the current token: its statements
    /// up to the closing brace.
    #[verifier::loop_isolation(false)]
    pub(crate) fn parse_block_stmt(&mut self) -> (r: BlockStmt)
        requires
            old(self).wf(),
            old(self)@.pos < old(self)@.tokens.len(),
        ensures
            final(self).wf(),
            Some(block_view(r)) == block_loop(
                old(self)@.tokens,
                old(self)@.pos + 1,
                old(self)@.errors,
                Seq::empty(),
            ).node,
            landed(
                old(self)@,
                final(self)@,
                shift(
                    block_loop(
                        old(self)@.tokens,
                        old(self)@.pos + 1,
                        old(self)@.errors,
                        Seq::empty(),
                    ),
                    1,
                ),
            ),
        decreases remaining(old(self)@.tokens, old(self)@.pos), 1nat, 0nat,
    {
        let ghost total = block_loop(
            old(self)@.tokens,
            old(self)@.pos + 1,
            old(self)@.errors,
            Seq::empty(),
        );
        self.walk_token();
        let mut block: Vec<Stmt> = Vec::new();
        assert(block_view(block) =~= Seq::<StmtV>::empty());
        while !self.current_token_is(Token::RBrace)
            invariant
                self.wf(),
                old(self)@.pos < old(self)@.tokens.len(),
                self@.tokens == old(self)@.tokens,
                self@.pos > old(self)@.pos,
                block_loop(self@.tokens, self@.pos, self@.errors, block_view(block)).node
                    == total.node,
                block_loop(self@.tokens, self@.pos, self@.errors, block_view(block)).errors
                    == total.errors,
                block_loop(self@.tokens, self@.pos, self@.errors, block_view(block)).used
                    + self@.pos == total.used + old(self)@.pos + 1,
            decreases remaining(self@.tokens, self@.pos),
        {
            proof {
                reveal(block_loop);
            }
            if self.current_token_is(Token::Eof) {
                self.error_next_token(Token::RBrace);
                return block;
            }
            let ghost acc = block_view(block);
            match self.parse_stmt() {
                Some(stmt) => {
                    block.push(stmt);
                    assert(block_view(block) =~= acc.push(stmt@));
                },
                None => {},
            }
            self.walk_token();
        }
        proof {
            reveal(block_loop);
        }
        block
    }

    /// An expression as a statement.
    pub(crate) fn parse_expr_stmt(&mut self) -> (r: Option<Stmt>)
        requires
            old(self).wf(),
        ensures
            final(self).wf(),
            stmt_opt(r) == expr_stmt(old(self)@.tokens, old(self)@.pos, old(self)@.errors).node,
            landed(
                old(self)@,
                final(self)@,
                expr_stmt(old(self)@.tokens, old(self)@.pos, old(self)@.errors),
            ),
        decreases remaining(old(self)@.tokens, old(self)@.pos), 8nat, 0nat,
    {
        proof {
            reveal(expr_stmt);
        }
        let expr = match self.parse_expr(Precedence::Lowest) {
            Some(expr) => expr,
            _ => {
                return None;
            },
        };
        self.skip_semicolon();
        Some(Stmt::Expr(expr))
    }
}

} // verus!
