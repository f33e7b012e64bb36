//! The tokens that the lexer produces and the parser consumes.

use vstd::prelude::*;

verus! {

/// One lexical unit of the language.
#[derive(Debug)]
pub enum Token {
    Illegal,
    Eof,
    // identifiers + literals
    Ident(String),
    Int(i64),
    // operations
    Assign,
    Plus,
    Minus,
    Bang,
    Asterisk,
    Slash,
    // condition
    While,
    LT,
    GT,
    LTEQ,
    GTEQ,
    // delimiters
    Comma,
    Semicolon,
    LParen,
    RParen,
    LBrace,
    RBrace,
    Dot,
    // keywords
    Function,
    Let,
    Const,
    True,
    False,
    If,
    Else,
    Break,
    Continue,
    Return,
    Equal,
    NotEqual,
    String(String),
    Bool(bool),
    LBracket,
    RBracket,
    Colon,
    Blank,
}

/// The mathematical value of a [`Token`]: text is a sequence of characters,
/// a number is a 64-bit integer.
pub enum TokenV {
    Illegal,
    Eof,
    Ident(Seq<char>),
    Int(i64),
    Assign,
    Plus,
    Minus,
    Bang,
    Asterisk,
    Slash,
    While,
    LT,
    GT,
    LTEQ,
    GTEQ,
    Comma,
    Semicolon,
    LParen,
    RParen,
    LBrace,
    RBrace,
    Dot,
    Function,
    Let,
    Const,
    True,
    False,
    If,
    Else,
    Break,
    Continue,
    Return,
    Equal,
    NotEqual,
    String(Seq<char>),
    Bool(bool),
    LBracket,
    RBracket,
    Colon,
    Blank,
}

impl View for Token {
    type V = TokenV;

    open spec fn view(&self) -> TokenV {
        match self {
            Token::Illegal => TokenV::Illegal,
            Token::Eof => TokenV::Eof,
            Token::Ident(s) => TokenV::Ident(s@),
            Token::Int(i) => TokenV::Int(*i),
            Token::Assign => TokenV::Assign,
            Token::Plus => TokenV::Plus,
            Token::Minus => TokenV::Minus,
            Token::Bang => TokenV::Bang,
            Token::Asterisk => TokenV::Asterisk,
            Token::Slash => TokenV::Slash,
            Token::While => TokenV::While,
            Token::LT => TokenV::LT,
            Token::GT => TokenV::GT,
            Token::LTEQ => TokenV::LTEQ,
            Token::GTEQ => TokenV::GTEQ,
            Token::Comma => TokenV::Comma,
            Token::Semicolon => TokenV::Semicolon,
            Token::LParen => TokenV::LParen,
            Token::RParen => TokenV::RParen,
            Token::LBrace => TokenV::LBrace,
            Token::RBrace => TokenV::RBrace,
            Token::Dot => TokenV::Dot,
            Token::Function => TokenV::Function,
            Token::Let => TokenV::Let,
            Token::Const => TokenV::Const,
            Token::True => TokenV::True,
            Token::False => TokenV::False,
            Token::If => TokenV::If,
            Token::Else => TokenV::Else,
            Token::Break => TokenV::Break,
            Token::Continue => TokenV::Continue,
            Token::Return => TokenV::Return,
            Token::Equal => TokenV::Equal,
            Token::NotEqual => TokenV::NotEqual,
            Token::String(s) => TokenV::String(s@),
            Token::Bool(b) => TokenV::Bool(*b),
            Token::LBracket => TokenV::LBracket,
            Token::RBracket => TokenV::RBracket,
            Token::Colon => TokenV::Colon,
            Token::Blank => TokenV::Blank,
        }
    }
}

impl Clone for Token {
    /// A copy with the same value.
    fn clone(&self) -> (r: Self)
        ensures
            r@ == self@,
    {
        match self {
            Token::Illegal => Token::Illegal,
            Token::Eof => Token::Eof,
            Token::Ident(s) => Token::Ident(s.clone()),
            Token::Int(i) => Token::Int(*i),
            Token::Assign => Token::Assign,
            Token::Plus => Token::Plus,
            Token::Minus => Token::Minus,
            Token::Bang => Token::Bang,
            Token::Asterisk => Token::Asterisk,
            Token::Slash => Token::Slash,
            Token::While => Token::While,
            Token::LT => Token::LT,
            Token::GT => Token::GT,
            Token::LTEQ => Token::LTEQ,
            Token::GTEQ => Token::GTEQ,
            Token::Comma => Token::Comma,
            Token::Semicolon => Token::Semicolon,
            Token::LParen => Token::LParen,
            Token::RParen => Token::RParen,
            Token::LBrace => Token::LBrace,
            Token::RBrace => Token::RBrace,
            Token::Dot => Token::Dot,
            Token::Function => Token::Function,
            Token::Let => Token::Let,
            Token::Const => Token::Const,
            Token::True => Token::True,
            Token::False => Token::False,
            Token::If => Token::If,
            Token::Else => Token::Else,
            Token::Break => Token::Break,
            Token::Continue => Token::Continue,
            Token::Return => Token::Return,
            Token::Equal => Token::Equal,
            Token::NotEqual => Token::NotEqual,
            Token::String(s) => Token::String(s.clone()),
            Token::Bool(b) => Token::Bool(*b),
            Token::LBracket => Token::LBracket,
            Token::RBracket => Token::RBracket,
            Token::Colon => Token::Colon,
            Token::Blank => Token::Blank,
        }
    }
}

impl PartialEq for Token {
    /// Two tokens are equal when they have the same value.
    fn eq(&self, other: &Self) -> (r: bool) {
        match (self, other) {
            (Token::Illegal, Token::Illegal) => true,
            (Token::Eof, Token::Eof) => true,
            (Token::Ident(a), Token::Ident(b)) => *a == *b,
            (Token::Int(a), Token::Int(b)) => *a == *b,
            (Token::Assign, Token::Assign) => true,
            (Token::Plus, Token::Plus) => true,
            (Token::Minus, Token::Minus) => true,
            (Token::Bang, Token::Bang) => true,
            (Token::Asterisk, Token::Asterisk) => true,
            (Token::Slash, Token::Slash) => true,
            (Token::While, Token::While) => true,
            (Token::LT, Token::LT) => true,
            (Token::GT, Token::GT) => true,
            (Token::LTEQ, Token::LTEQ) => true,
            (Token::GTEQ, Token::GTEQ) => true,
            (Token::Comma, Token::Comma) => true,
            (Token::Semicolon, Token::Semicolon) => true,
            (Token::LParen, Token::LParen) => true,
            (Token::RParen, Token::RParen) => true,
            (Token::LBrace, Token::LBrace) => true,
            (Token::RBrace, Token::RBrace) => true,
            (Token::Dot, Token::Dot) => true,
            (Token::Function, Token::Function) => true,
            (Token::Let, Token::Let) => true,
            (Token::Const, Token::Const) => true,
            (Token::True, Token::True) => true,
            (Token::False, Token::False) => true,
            (Token::If, Token::If) => true,
            (Token::Else, Token::Else) => true,
            (Token::Break, Token::Break) => true,
            (Token::Continue, Token::Continue) => true,
            (Token::Return, Token::Return) => true,
            (Token::Equal, Token::Equal) => true,
            (Token::NotEqual, Token::NotEqual) => true,
            (Token::String(a), Token::String(b)) => *a == *b,
            (Token::Bool(a), Token::Bool(b)) => *a == *b,
            (Token::LBracket, Token::LBracket) => true,
            (Token::RBracket, Token::RBracket) => true,
            (Token::Colon, Token::Colon) => true,
            (Token::Blank, Token::Blank) => true,
            _ => false,
        }
    }
}

impl vstd::std_specs::cmp::PartialEqSpecImpl for Token {
    open spec fn obeys_eq_spec() -> bool {
        true
    }

    open spec fn eq_spec(&self, other: &Self) -> bool {
        self@ == other@
    }
}

} // verus!
