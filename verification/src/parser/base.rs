//! The parser itself: the two tokens it holds, its steps forward and its
//! record of errors.

use crate::ast::{
    block_view, exprs_view, idents_view, Expr, ExprV, Ident, Precedence, Program, Stmt, StmtV,
};
use crate::lexer::{lemma_lex_advances, tokens_from, Lexer, LexerV};
use crate::parser::grammar::{
    expected, expected_name, parse_stmt, precedence_of, program, semicolon, ParseErrorV, Parsed,
};
use crate::parser::stream::{at, remaining};
use crate::token::{Token, TokenV};
use vstd::prelude::*;
use vstd::string::StringExecFns;

verus! {

/// What the parser records where a token is not the one it needs.
#[derive(Debug)]
pub enum ParseError {
    UnexpectedToken { want: Option<Token>, got: Token },
}

impl View for ParseError {
    type V = ParseErrorV;

    open spec fn view(&self) -> ParseErrorV {
        match self {
            ParseError::UnexpectedToken { want, got } => ParseErrorV {
                want: match want {
                    Some(t) => Some(t@),
                    None => None,
                },
                got: got@,
            },
        }
    }
}

impl Clone for ParseError {
    fn clone(&self) -> (r: Self)
        ensures
            r@ == self@,
    {
        match self {
            ParseError::UnexpectedToken { want, got } => ParseError::UnexpectedToken {
                want: match want {
                    Some(t) => Some(t.clone()),
                    None => None,
                },
                got: got.clone(),
            },
        }
    }
}

/// The list of errors of a parser.
pub type ParseErrors = Vec<ParseError>;

/// The values of a list of errors, in order.
pub open spec fn errors_view(v: Seq<ParseError>) -> Seq<ParseErrorV> {
    v.map_values(|e: ParseError| e@)
}

/// The tokens that a parser still has before it: the current token, the
/// next one and what the lexer has left, up to the first `Eof`.
pub open spec fn stream(cur: TokenV, next: TokenV, lexer: LexerV) -> Seq<TokenV> {
    if cur == TokenV::Eof {
        Seq::empty()
    } else if next == TokenV::Eof {
        seq![cur]
    } else {
        seq![cur, next] + tokens_from(lexer.input, lexer.pos)
    }
}

/// The value of an optional expression.
pub open spec fn expr_opt(o: Option<Expr>) -> Option<ExprV> {
    match o {
        Some(e) => Some(e@),
        None => None,
    }
}

/// The value of an optional statement.
pub open spec fn stmt_opt(o: Option<Stmt>) -> Option<StmtV> {
    match o {
        Some(s) => Some(s@),
        None => None,
    }
}

/// The value of an optional list of expressions.
pub open spec fn exprs_opt(o: Option<Vec<Expr>>) -> Option<Seq<ExprV>> {
    match o {
        Some(v) => Some(exprs_view(v)),
        None => None,
    }
}

/// The value of an optional parameter list.
pub open spec fn idents_opt(o: Option<Vec<Ident>>) -> Option<Seq<Seq<char>>> {
    match o {
        Some(v) => Some(idents_view(v)),
        None => None,
    }
}

/// A parser over the tokens of a lexer.
pub struct Parser {
    lexer: Lexer,
    current_token: Token,
    next_token: Token,
    errors: ParseErrors,
    past: Ghost<Seq<TokenV>>,
    steps: Ghost<nat>,
}

/// The state of a [`Parser`]: all the tokens of its lexer up to the first
/// `Eof`, the position of the current token among them, and the errors
/// recorded so far. Beyond the last token the current token is `Eof`.
pub struct ParserV {
    pub tokens: Seq<TokenV>,
    pub pos: nat,
    pub errors: Seq<ParseErrorV>,
}

/// What a production leaves behind: the parser has taken `p.used` steps
/// forward and holds the errors `p.errors`.
pub open spec fn landed<T>(before: ParserV, after: ParserV, p: Parsed<T>) -> bool {
    after.tokens == before.tokens && after.pos == before.pos + p.used && after.errors == p.errors
}

impl View for Parser {
    type V = ParserV;

    closed spec fn view(&self) -> ParserV {
        ParserV {
            tokens: self.past@ + stream(self.current_token@, self.next_token@, self.lexer@),
            pos: self.steps@,
            errors: errors_view(self.errors@),
        }
    }
}

impl Parser {
    /// After `Eof` comes `Eof`, in the two tokens held and in the lexer.
    pub closed spec fn wf(&self) -> bool {
        &&& self.lexer@.wf()
        &&& (self.current_token@ == TokenV::Eof ==> self.next_token@ == TokenV::Eof)
        &&& (self.next_token@ == TokenV::Eof ==> self.lexer@.token() == TokenV::Eof)
        &&& self.past@.len() <= self.steps@
        &&& (self.past@.len() < self.steps@ ==> self.current_token@ == TokenV::Eof)
    }

    /// The two tokens held are the first two of the tokens still before the
    /// parser.
    proof fn lemma_heads(&self)
        requires
            self.wf(),
        ensures
            at(self@.tokens, self@.pos) == self.current_token@,
            at(self@.tokens, self@.pos + 1) == self.next_token@,
    {
    }

    /// A parser at the first token of `lexer`, with no error recorded.
    pub fn new(lexer: Lexer) -> (r: Self)
        ensures
            r.wf(),
            r@.tokens == tokens_from(lexer@.input, lexer@.pos),
            r@.pos == 0,
            r@.errors == Seq::<ParseErrorV>::empty(),
    {
        let mut lexer = lexer;
        let ghost l0 = lexer@;
        let first = lexer.next_token();
        let ghost l1 = lexer@;
        let second = lexer.next_token();
        proof {
            lemma_lex_advances(l0.input, l0.pos);
            lemma_lex_advances(l1.input, l1.pos);
            if first@ != TokenV::Eof {
                assert(tokens_from(l0.input, l0.pos) == seq![first@] + tokens_from(
                    l1.input,
                    l1.pos,
                ));
                if second@ != TokenV::Eof {
                    assert(seq![first@] + (seq![second@] + tokens_from(lexer@.input, lexer@.pos))
                        =~= seq![first@, second@] + tokens_from(lexer@.input, lexer@.pos));
                } else {
                    assert(seq![first@] + Seq::<TokenV>::empty() =~= seq![first@]);
                }
            }
        }
        let errors: Vec<ParseError> = Vec::new();
        assert(errors_view(errors@) =~= Seq::<ParseErrorV>::empty());
        let r = Parser {
            lexer,
            current_token: first,
            next_token: second,
            errors,
            past: Ghost(Seq::empty()),
            steps: Ghost(0),
        };
        assert(r@.tokens =~= tokens_from(l0.input, l0.pos));
        r
    }

    /// Parses the whole program: statement after statement up to the end of
    /// the tokens. A statement that does not parse is left out and the
    /// parse goes on after it; its errors are recorded.
    pub fn parse(&mut self) -> (r: Program)
        requires
            old(self).wf(),
        ensures
            final(self).wf(),
            Some(block_view(r)) == program(
                old(self)@.tokens,
                old(self)@.pos,
                old(self)@.errors,
                Seq::empty(),
            ).node,
            landed(
                old(self)@,
                final(self)@,
                program(old(self)@.tokens, old(self)@.pos, old(self)@.errors, Seq::empty()),
            ),
            at(final(self)@.tokens, final(self)@.pos) == TokenV::Eof,
    {
        let mut out: Vec<Stmt> = Vec::new();
        let ghost total = program(
            old(self)@.tokens,
            old(self)@.pos,
            old(self)@.errors,
            Seq::empty(),
        );
        assert(block_view(out) =~= Seq::<StmtV>::empty());
        while !self.current_token_is(Token::Eof)
            invariant
                self.wf(),
                self@.tokens == old(self)@.tokens,
                self@.pos >= old(self)@.pos,
                program(self@.tokens, self@.pos, self@.errors, block_view(out)).node == total.node,
                program(self@.tokens, self@.pos, self@.errors, block_view(out)).errors
                    == total.errors,
                program(self@.tokens, self@.pos, self@.errors, block_view(out)).used + self@.pos
                    == total.used + old(self)@.pos,
            decreases remaining(self@.tokens, self@.pos),
        {
            proof {
                reveal(program);
            }
            let ghost acc = block_view(out);
            match self.parse_stmt() {
                Some(stmt) => {
                    out.push(stmt);
                    assert(block_view(out) =~= acc.push(stmt@));
                },
                None => {},
            }
            self.walk_token();
        }
        proof {
            reveal(program);
        }
        out
    }

    /// The statement that begins at the current token.
    pub(crate) fn parse_stmt(&mut self) -> (r: Option<Stmt>)
        requires
            old(self).wf(),
        ensures
            final(self).wf(),
            stmt_opt(r) == parse_stmt(old(self)@.tokens, old(self)@.pos, old(self)@.errors).node,
            landed(
                old(self)@,
                final(self)@,
                parse_stmt(old(self)@.tokens, old(self)@.pos, old(self)@.errors),
            ),
        decreases remaining(old(self)@.tokens, old(self)@.pos), 9nat, 0nat,
    {
        proof {
            reveal(parse_stmt);
            self.lemma_heads();
        }
        match &self.current_token {
            Token::Let => self.parse_let_stmt(),
            Token::Const => self.parse_const_stmt(),
            Token::Return => self.parse_return_stmt(),
            Token::Ident(_) => {
                if self.next_token_is(Token::Assign) {
                    self.parse_reassign_stmt()
                } else {
                    self.parse_expr_stmt()
                }
            },
            Token::Break => self.parse_break_stmt(),
            Token::Continue => self.parse_continue_stmt(),
            Token::Blank => Some(Stmt::Blank),
            _ => self.parse_expr_stmt(),
        }
    }
}

impl Parser {
    /// One step forward: the next token becomes the current one and the
    /// lexer hands out a new next one.
    pub(crate) fn walk_token(&mut self)
        requires
            old(self).wf(),
        ensures
            final(self).wf(),
            final(self)@.tokens == old(self)@.tokens,
            final(self)@.pos == old(self)@.pos + 1,
            final(self)@.errors == old(self)@.errors,
    {
        proof {
            lemma_lex_advances(self.lexer@.input, self.lexer@.pos);
        }
        let ghost l0 = self.lexer@;
        let ghost cur = self.current_token@;
        let ghost next = self.next_token@;
        let ghost past = self.past@;
        let t = self.lexer.next_token();
        proof {
            if cur != TokenV::Eof && next != TokenV::Eof {
                let rest = tokens_from(l0.input, l0.pos);
                if t@ != TokenV::Eof {
                    assert(past.push(cur) + (seq![next, t@] + tokens_from(
                        self.lexer@.input,
                        self.lexer@.pos,
                    )) =~= past + (seq![cur, next] + rest));
                } else {
                    assert(past.push(cur) + seq![next] =~= past + (seq![cur, next] + rest));
                }
            } else if cur != TokenV::Eof {
                assert(past.push(cur) + Seq::<TokenV>::empty() =~= past + seq![cur]);
            }
        }
        if !(self.current_token == Token::Eof) {
            self.past = Ghost(past.push(cur));
        }
        self.steps = Ghost(self.steps@ + 1);
        self.current_token = self.next_token.clone();
        self.next_token = t;
    }

    /// The current token.
    pub(crate) fn current(&self) -> (r: &Token)
        requires
            self.wf(),
        ensures
            r@ == at(self@.tokens, self@.pos),
    {
        proof {
            self.lemma_heads();
        }
        &self.current_token
    }

    /// The token after the current one.
    pub(crate) fn next(&self) -> (r: &Token)
        requires
            self.wf(),
        ensures
            r@ == at(self@.tokens, self@.pos + 1),
    {
        proof {
            self.lemma_heads();
        }
        &self.next_token
    }

    /// Whether the current token is `tok`.
    pub(crate) fn current_token_is(&self, tok: Token) -> (r: bool)
        requires
            self.wf(),
        ensures
            r == (at(self@.tokens, self@.pos) == tok@),
    {
        proof {
            self.lemma_heads();
        }
        self.current_token == tok
    }

    /// Whether the next token is `tok`.
    pub(crate) fn next_token_is(&self, tok: Token) -> (r: bool)
        requires
            self.wf(),
        ensures
            r == (at(self@.tokens, self@.pos + 1) == tok@),
    {
        proof {
            self.lemma_heads();
        }
        self.next_token == tok
    }

    /// Whether the next token is `token_borrow`.
    pub(crate) fn next_token_borrow_is(&self, token_borrow: &Token) -> (r: bool)
        requires
            self.wf(),
        ensures
            r == (at(self@.tokens, self@.pos + 1) == token_borrow@),
    {
        proof {
            self.lemma_heads();
        }
        self.next_token == *token_borrow
    }

    /// Whether the next token is `tok`; where it is not, the mismatch is
    /// recorded.
    pub(crate) fn assert_next_token(&mut self, tok: Token) -> (r: bool)
        requires
            old(self).wf(),
        ensures
            final(self).wf(),
            r == (at(old(self)@.tokens, old(self)@.pos + 1) == tok@),
            final(self)@.tokens == old(self)@.tokens,
            final(self)@.pos == old(self)@.pos,
            final(self)@.errors == if r {
                old(self)@.errors
            } else {
                expected(old(self)@.errors, tok@, old(self)@.tokens, old(self)@.pos + 1)
            },
    {
        proof {
            self.lemma_heads();
        }
        if self.next_token == tok {
            true
        } else {
            self.error_next_token(tok);
            false
        }
    }

    /// Records that `tok` was expected where the next token stands.
    pub(crate) fn error_next_token(&mut self, tok: Token)
        requires
            old(self).wf(),
        ensures
            final(self).wf(),
            final(self)@.tokens == old(self)@.tokens,
            final(self)@.pos == old(self)@.pos,
            final(self)@.errors == expected(
                old(self)@.errors,
                tok@,
                old(self)@.tokens,
                old(self)@.pos + 1,
            ),
    {
        proof {
            self.lemma_heads();
        }
        let ghost before = errors_view(self.errors@);
        let e = ParseError::UnexpectedToken { want: Some(tok), got: self.next_token.clone() };
        self.errors.push(e);
        assert(errors_view(self.errors@) =~= before.push(e@));
    }

    /// The errors recorded so far.
    pub fn get_errors(&self) -> (r: ParseErrors)
        ensures
            errors_view(r@) == self@.errors,
    {
        let mut out: Vec<ParseError> = Vec::new();
        let mut i: usize = 0;
        while i < self.errors.len()
            invariant
                i <= self.errors.len(),
                out.len() == i,
                forall|j: int| 0 <= j < i ==> out[j]@ == self.errors[j]@,
            decreases self.errors.len() - i,
        {
            out.push(self.errors[i].clone());
            i = i + 1;
        }
        assert(errors_view(out@) =~= errors_view(self.errors@));
        out
    }

    /// Records that a name was expected where the current token stands.
    pub(crate) fn error_current_token(&mut self)
        requires
            old(self).wf(),
        ensures
            final(self).wf(),
            final(self)@.tokens == old(self)@.tokens,
            final(self)@.pos == old(self)@.pos,
            final(self)@.errors == expected_name(
                old(self)@.errors,
                old(self)@.tokens,
                old(self)@.pos,
            ),
    {
        proof {
            self.lemma_heads();
        }
        let ghost before = errors_view(self.errors@);
        let e = ParseError::UnexpectedToken {
            want: Some(Token::Ident(String::from_str("ident"))),
            got: self.current_token.clone(),
        };
        self.errors.push(e);
        assert(errors_view(self.errors@) =~= before.push(e@));
    }

    /// Records that no expression can begin at the current token; the
    /// record names the token after it.
    pub(crate) fn error_no_prefix_parser(&mut self)
        requires
            old(self).wf(),
        ensures
            final(self).wf(),
            final(self)@.tokens == old(self)@.tokens,
            final(self)@.pos == old(self)@.pos,
            final(self)@.errors == old(self)@.errors.push(
                ParseErrorV { want: None, got: at(old(self)@.tokens, old(self)@.pos + 1) },
            ),
    {
        proof {
            self.lemma_heads();
        }
        let ghost before = errors_view(self.errors@);
        let e = ParseError::UnexpectedToken { want: None, got: self.next_token.clone() };
        self.errors.push(e);
        assert(errors_view(self.errors@) =~= before.push(e@));
    }

    /// One more step forward if the next token is a semicolon.
    pub(crate) fn skip_semicolon(&mut self)
        requires
            old(self).wf(),
        ensures
            final(self).wf(),
            final(self)@.tokens == old(self)@.tokens,
            final(self)@.pos == old(self)@.pos + semicolon(old(self)@.tokens, old(self)@.pos, 0),
            final(self)@.errors == old(self)@.errors,
    {
        if self.next_token_is(Token::Semicolon) {
            self.walk_token();
        }
    }
}

impl Parser {
    /// How tightly `tok` binds as an infix, index or call operator.
    pub(crate) fn token_to_precedence(tok: &Token) -> (r: Precedence)
        ensures
            r == precedence_of(tok@),
    {
        match tok {
            Token::Equal | Token::NotEqual => Precedence::Equals,
            Token::LT | Token::LTEQ => Precedence::LessGreater,
            Token::GT | Token::GTEQ => Precedence::LessGreater,
            Token::Plus | Token::Minus => Precedence::Sum,
            Token::Slash | Token::Asterisk => Precedence::Product,
            Token::LBracket => Precedence::Index,
            Token::Dot => Precedence::Index,
            Token::LParen => Precedence::Call,
            _ => Precedence::Lowest,
        }
    }

    /// The precedence of the current token.
    pub(crate) fn current_token_precedence(&self) -> (r: Precedence)
        requires
            self.wf(),
        ensures
            r == precedence_of(at(self@.tokens, self@.pos)),
    {
        proof {
            self.lemma_heads();
        }
        Self::token_to_precedence(&self.current_token)
    }

    /// The precedence of the next token.
    pub(crate) fn next_token_precedence(&self) -> (r: Precedence)
        requires
            self.wf(),
        ensures
            r == precedence_of(at(self@.tokens, self@.pos + 1)),
    {
        proof {
            self.lemma_heads();
        }
        Self::token_to_precedence(&self.next_token)
    }
}

impl Parser {
    /// The current token as a name, if it is an identifier.
    pub(crate) fn parse_ident(&self) -> (r: Option<Ident>)
        requires
            self.wf(),
        ensures
            match at(self@.tokens, self@.pos) {
                TokenV::Ident(name) => r matches Some(i) && i@ == name,
                _ => r is None,
            },
    {
        proof {
            self.lemma_heads();
        }
        match &self.current_token {
            Token::Ident(ident) => Some(Ident(ident.clone())),
            _ => None,
        }
    }
}

} // verus!
