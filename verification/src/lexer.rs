//! The lexer: from source text to tokens, one token per call.

use crate::text::{chars_of, span_is, text_of, unescape, unescape_span};
use crate::token::{Token, TokenV};
pub use crate::unicode::nfc_normalize;
use crate::unicode::{is_xid_start, nfc, xid_start};
use vstd::prelude::*;
use vstd::string::StringExecFns;

verus! {

/// Pattern_White_Space without the newline.
pub open spec fn whitespace(c: char) -> bool {
    c == '\u{0009}' || c == '\u{000C}' || c == '\u{000D}' || c == '\u{000B}' || c == '\u{0020}'
        || c == '\u{0085}' || c == '\u{200E}' || c == '\u{200F}' || c == '\u{2028}' || c
        == '\u{2029}'
}

/// Whether `c` is skipped between tokens: tab, form feed, carriage return,
/// vertical tab, space, NEXT LINE, the two bidi marks, LINE SEPARATOR and
/// PARAGRAPH SEPARATOR.
pub fn is_whitespace(c: char) -> (r: bool)
    ensures
        r == whitespace(c),
{
    c == '\u{0009}' || c == '\u{000C}' || c == '\u{000D}' || c == '\u{000B}' || c == '\u{0020}'
        || c == '\u{0085}' || c == '\u{200E}' || c == '\u{200F}' || c == '\u{2028}' || c
        == '\u{2029}'
}

/// Characters that may show up in an emoji.
pub open spec fn emoji_like(c: char) -> bool {
    c >= '\x7f' && (c == '\u{200D}' || c == '\u{fe0f}' || c == '\u{fe0e}' || ('\u{1f000}' <= c
        && c <= '\u{1faff}') || c == '\u{2139}' || ('\u{2190}' <= c && c <= '\u{21FF}') || (
    '\u{2300}' <= c && c <= '\u{23FF}') || ('\u{25A0}' <= c && c <= '\u{25FF}') || ('\u{2600}'
        <= c && c <= '\u{26FF}') || ('\u{2700}' <= c && c <= '\u{27FF}'))
}

/// Whether `c` may show up in an emoji: the joiner, the variation selectors
/// 15 and 16, the block U+1F000 to U+1FAFF, U+2139, arrows, technical and
/// geometric symbols, miscellaneous symbols and dingbats.
pub fn is_emoji_like(c: char) -> (r: bool)
    ensures
        r == emoji_like(c),
{
    if '\x7f' > c {
        false
    } else {
        c == '\u{200D}' || c == '\u{fe0f}' || c == '\u{fe0e}' || ('\u{1f000}' <= c && c
            <= '\u{1faff}') || c == '\u{2139}' || ('\u{2190}' <= c && c <= '\u{21FF}') || (
        '\u{2300}' <= c && c <= '\u{23FF}') || ('\u{25A0}' <= c && c <= '\u{25FF}') || (
        '\u{2600}' <= c && c <= '\u{26FF}') || ('\u{2700}' <= c && c <= '\u{27FF}')
    }
}

/// An ASCII letter, `_`, `$` or the yen sign.
pub open spec fn plain_start(c: char) -> bool {
    ('a' <= c && c <= 'z') || ('A' <= c && c <= 'Z') || c == '_' || c == '$' || c == '\u{a5}'
}

/// The characters that may begin an identifier.
pub open spec fn id_start(c: char) -> bool {
    plain_start(c) || (c > '\x7f' && xid_start(c)) || emoji_like(c)
}

/// An ASCII digit.
pub open spec fn digit(c: char) -> bool {
    '0' <= c && c <= '9'
}

/// The characters that may continue an identifier: those that may begin
/// one, and the digits.
pub open spec fn id_continue(c: char) -> bool {
    id_start(c) || digit(c)
}

/// Whether `c` may begin an identifier.
pub fn is_id_start(c: char) -> (r: bool)
    ensures
        r == id_start(c),
{
    ('a' <= c && c <= 'z') || ('A' <= c && c <= 'Z') || c == '_' || c == '$' || c == '\u{a5}' || (c
        > '\x7f' && is_xid_start(c)) || is_emoji_like(c)
}

/// Whether `c` may continue an identifier.
pub fn is_id_continue(c: char) -> (r: bool)
    ensures
        r == id_continue(c),
{
    ('a' <= c && c <= 'z') || ('A' <= c && c <= 'Z') || ('0' <= c && c <= '9') || c == '_' || c
        == '$' || c == '\u{a5}' || (c > '\x7f' && is_xid_start(c)) || is_emoji_like(c)
}

/// The character at `pos`, and NUL beyond the end of the input.
pub open spec fn char_at(input: Seq<char>, pos: int) -> char {
    if 0 <= pos < input.len() {
        input[pos]
    } else {
        '\0'
    }
}

/// The first position from `pos` on that holds no whitespace.
pub open spec fn skip_blanks(input: Seq<char>, pos: int) -> int
    decreases input.len() - pos,
{
    if 0 <= pos < input.len() && whitespace(input[pos]) {
        skip_blanks(input, pos + 1)
    } else {
        pos
    }
}

/// The position where the next token begins: whitespace is passed over, and
/// so is a newline that no second newline follows.
pub open spec fn skip_gaps(input: Seq<char>, pos: int) -> int
    decreases input.len() - pos,
{
    if 0 <= pos < input.len() && (whitespace(input[pos]) || (input[pos] == '\n' && char_at(
        input,
        pos + 1,
    ) != '\n')) {
        skip_gaps(input, pos + 1)
    } else {
        pos
    }
}

/// The first position from `pos` on that holds no identifier character.
pub open spec fn ident_end(input: Seq<char>, pos: int) -> int
    decreases input.len() - pos,
{
    if 0 <= pos < input.len() && id_continue(input[pos]) {
        ident_end(input, pos + 1)
    } else {
        pos
    }
}

/// The first position from `pos` on that holds no digit.
pub open spec fn digits_end(input: Seq<char>, pos: int) -> int
    decreases input.len() - pos,
{
    if 0 <= pos < input.len() && digit(input[pos]) {
        digits_end(input, pos + 1)
    } else {
        pos
    }
}

/// The number that a run of digits writes in base ten.
pub open spec fn decimal(s: Seq<char>) -> nat
    decreases s.len(),
{
    if s.len() == 0 {
        0
    } else {
        (decimal(s.drop_last()) * 10 + (s.last() as int - '0' as int)) as nat
    }
}

/// Where the scan of a string literal stops: at the closing quote, or at the
/// NUL or the end of input that comes first. A character that follows a
/// backslash is passed over.
pub open spec fn string_close(input: Seq<char>, pos: int, escaped: bool) -> int
    decreases input.len() - pos,
{
    if 0 <= pos < input.len() && input[pos] != '\0' {
        if escaped {
            string_close(input, pos + 1, false)
        } else if input[pos] == '"' {
            pos
        } else {
            string_close(input, pos + 1, input[pos] == '\\')
        }
    } else {
        pos
    }
}

/// The keyword table: the token that a word stands for, if it is reserved.
pub open spec fn keyword(text: Seq<char>) -> Option<TokenV> {
    if text == "let"@ {
        Some(TokenV::Let)
    } else if text == "\u{7ed9}"@ {
        Some(TokenV::Let)
    } else if text == "\u{4ee5}"@ {
        Some(TokenV::Assign)
    } else if text == "\u{524d}\u{8fdb}"@ {
        Some(TokenV::Plus)
    } else if text == "\u{964d}\u{7ef4}"@ {
        Some(TokenV::Minus)
    } else if text == "const"@ {
        Some(TokenV::Const)
    } else if text == "\u{601d}\u{60f3}\u{94a2}\u{5370}"@ {
        Some(TokenV::Const)
    } else if text == "fn"@ {
        Some(TokenV::Function)
    } else if text == "\u{6cd5}\u{5219}"@ {
        Some(TokenV::Function)
    } else if text == "true"@ {
        Some(TokenV::Bool(true))
    } else if text == "false"@ {
        Some(TokenV::Bool(false))
    } else if text == "\u{8fd9}\u{662f}\u{8ba1}\u{5212}\u{7684}\u{4e00}\u{90e8}\u{5206}"@ {
        Some(TokenV::Bool(true))
    } else if text == "\u{4e3b}\u{4e0d}\u{5728}\u{4e4e}"@ {
        Some(TokenV::Bool(false))
    } else if text == "if"@ {
        Some(TokenV::If)
    } else if text == "while"@ {
        Some(TokenV::While)
    } else if text == "else"@ {
        Some(TokenV::Else)
    } else if text == "break"@ {
        Some(TokenV::Break)
    } else if text == "continue"@ {
        Some(TokenV::Continue)
    } else if text == "return"@ {
        Some(TokenV::Return)
    } else if text == "\u{9762}\u{58c1}"@ {
        Some(TokenV::While)
    } else if text == "\u{7834}\u{58c1}"@ {
        Some(TokenV::Break)
    } else if text == "\u{5ef6}\u{7eea}"@ {
        Some(TokenV::Continue)
    } else {
        None
    }
}

/// What one step of the lexer yields: the token, the position after it, and
/// whether the token is a number too large for 64 bits.
pub struct Lexed {
    pub token: TokenV,
    pub pos: int,
    pub overflow: bool,
}

/// The number that begins at `p`. One that does not fit in 64 bits gives
/// `Illegal` and raises the overflow mark.
pub open spec fn lex_number(input: Seq<char>, p: int) -> Lexed {
    let q = digits_end(input, p);
    let v = decimal(input.subrange(p, q));
    if v <= i64::MAX {
        Lexed { token: TokenV::Int(v as i64), pos: q, overflow: false }
    } else {
        Lexed { token: TokenV::Illegal, pos: q, overflow: true }
    }
}

/// The text of an unterminated string literal.
pub open spec fn premature_eof() -> Seq<char> {
    "<Lexer error: string: premature EOF>"@
}

/// The string literal whose opening quote is at `p`.
pub open spec fn lex_string(input: Seq<char>, p: int) -> Lexed {
    let q = string_close(input, p + 1, false);
    if char_at(input, q) == '"' {
        Lexed {
            token: TokenV::String(unescape(input.subrange(p + 1, q))),
            pos: q + 1,
            overflow: false,
        }
    } else {
        Lexed { token: TokenV::String(premature_eof()), pos: q, overflow: false }
    }
}

/// The word that begins at `p`: a keyword, or an identifier in Normalization
/// Form C.
pub open spec fn lex_ident(input: Seq<char>, p: int) -> Lexed {
    let q = ident_end(input, p + 1);
    let text = input.subrange(p, q);
    Lexed {
        token: match keyword(text) {
            Some(t) => t,
            None => TokenV::Ident(nfc(text)),
        },
        pos: q,
        overflow: false,
    }
}

/// A token of one or two characters, with the position after it.
pub open spec fn plain(token: TokenV, pos: int) -> Lexed {
    Lexed { token, pos, overflow: false }
}

/// The token that begins at `p`, where `p` is the start of a token.
pub open spec fn token_at(input: Seq<char>, p: int) -> Lexed {
    let c = char_at(input, p);
    let n = char_at(input, p + 1);
    if c == '=' {
        if n == '=' {
            plain(TokenV::Equal, p + 2)
        } else {
            plain(TokenV::Assign, p + 1)
        }
    } else if c == '+' {
        plain(TokenV::Plus, p + 1)
    } else if c == '-' {
        plain(TokenV::Minus, p + 1)
    } else if c == '!' {
        if n == '=' {
            plain(TokenV::NotEqual, p + 2)
        } else {
            plain(TokenV::Bang, p + 1)
        }
    } else if c == '/' {
        plain(TokenV::Slash, p + 1)
    } else if c == '*' {
        plain(TokenV::Asterisk, p + 1)
    } else if c == '<' {
        if n == '=' {
            plain(TokenV::LTEQ, p + 2)
        } else {
            plain(TokenV::LT, p + 1)
        }
    } else if c == '>' {
        if n == '=' {
            plain(TokenV::GTEQ, p + 2)
        } else {
            plain(TokenV::GT, p + 1)
        }
    } else if c == '(' {
        plain(TokenV::LParen, p + 1)
    } else if c == ')' {
        plain(TokenV::RParen, p + 1)
    } else if c == '{' {
        plain(TokenV::LBrace, p + 1)
    } else if c == '}' {
        plain(TokenV::RBrace, p + 1)
    } else if c == '.' {
        plain(TokenV::Dot, p + 1)
    } else if c == '[' {
        plain(TokenV::LBracket, p + 1)
    } else if c == ']' {
        plain(TokenV::RBracket, p + 1)
    } else if c == ',' {
        plain(TokenV::Comma, p + 1)
    } else if c == ';' {
        plain(TokenV::Semicolon, p + 1)
    } else if c == ':' {
        plain(TokenV::Colon, p + 1)
    } else if digit(c) {
        lex_number(input, p)
    } else if c == '"' {
        lex_string(input, p)
    } else if c == '\n' {
        plain(TokenV::Blank, p + 1)
    } else if c == '\0' {
        plain(TokenV::Eof, p)
    } else if id_start(c) {
        lex_ident(input, p)
    } else {
        plain(TokenV::Illegal, p + 1)
    }
}

/// One step of the lexer from `pos`: the next token and where it ends. At
/// the end of the input, and at a NUL, the token is `Eof` and the position
/// stays.
pub open spec fn lex(input: Seq<char>, pos: int) -> Lexed {
    token_at(input, skip_gaps(input, pos))
}

/// No reserved word stands for `Eof`.
pub proof fn lemma_keyword_not_eof(text: Seq<char>)
    ensures
        keyword(text) != Some(TokenV::Eof),
{
}

/// Skipping whitespace moves forward, and not beyond the end.
pub proof fn lemma_skip_blanks(input: Seq<char>, pos: int)
    requires
        0 <= pos,
    ensures
        pos <= skip_blanks(input, pos),
        pos <= input.len() ==> skip_blanks(input, pos) <= input.len(),
        !whitespace(char_at(input, skip_blanks(input, pos))),
        skip_gaps(input, skip_blanks(input, pos)) == skip_gaps(input, pos),
    decreases input.len() - pos,
{
    if pos < input.len() && whitespace(input[pos]) {
        lemma_skip_blanks(input, pos + 1);
    }
}

/// The start of the next token is not before `pos`, not beyond the end, and
/// holds neither whitespace nor a single newline.
pub proof fn lemma_skip_gaps(input: Seq<char>, pos: int)
    requires
        0 <= pos,
    ensures
        pos <= skip_gaps(input, pos),
        pos <= input.len() ==> skip_gaps(input, pos) <= input.len(),
        skip_gaps(input, skip_gaps(input, pos)) == skip_gaps(input, pos),
    decreases input.len() - pos,
{
    if pos < input.len() && (whitespace(input[pos]) || (input[pos] == '\n' && char_at(
        input,
        pos + 1,
    ) != '\n')) {
        lemma_skip_gaps(input, pos + 1);
    }
}

/// A run of identifier characters ends at or after its start, within the
/// input.
pub proof fn lemma_ident_end(input: Seq<char>, pos: int)
    requires
        0 <= pos,
    ensures
        pos <= ident_end(input, pos),
        pos <= input.len() ==> ident_end(input, pos) <= input.len(),
    decreases input.len() - pos,
{
    if pos < input.len() && id_continue(input[pos]) {
        lemma_ident_end(input, pos + 1);
    }
}

/// A run of digits ends at or after its start, within the input.
pub proof fn lemma_digits_end(input: Seq<char>, pos: int)
    requires
        0 <= pos,
    ensures
        pos <= digits_end(input, pos),
        pos <= input.len() ==> digits_end(input, pos) <= input.len(),
    decreases input.len() - pos,
{
    if pos < input.len() && digit(input[pos]) {
        lemma_digits_end(input, pos + 1);
    }
}

/// The scan of a string literal stops at or after its start, within the
/// input.
pub proof fn lemma_string_close(input: Seq<char>, pos: int, escaped: bool)
    requires
        0 <= pos,
    ensures
        pos <= string_close(input, pos, escaped),
        pos <= input.len() ==> string_close(input, pos, escaped) <= input.len(),
    decreases input.len() - pos,
{
    if pos < input.len() && input[pos] != '\0' {
        if escaped {
            lemma_string_close(input, pos + 1, false);
        } else if input[pos] != '"' {
            lemma_string_close(input, pos + 1, input[pos] == '\\');
        }
    }
}

/// Every token but `Eof` takes at least one character and ends within the
/// input; at `Eof` the lexer stays where it is and yields `Eof` again.
pub proof fn lemma_lex_advances(input: Seq<char>, pos: int)
    requires
        0 <= pos <= input.len(),
    ensures
        pos <= lex(input, pos).pos <= input.len(),
        lex(input, pos).token != TokenV::Eof ==> pos < lex(input, pos).pos,
        lex(input, pos).token == TokenV::Eof ==> lex(input, lex(input, pos).pos) == lex(
            input,
            pos,
        ),
{
    let p = skip_gaps(input, pos);
    lemma_skip_gaps(input, pos);
    lemma_digits_end(input, p);
    lemma_string_close(input, p + 1, false);
    lemma_ident_end(input, p + 1);
    let q = ident_end(input, p + 1);
    lemma_keyword_not_eof(input.subrange(p, q));
    let c = char_at(input, p);
    if digit(c) {
        assert(digits_end(input, p) == digits_end(input, p + 1));
        lemma_digits_end(input, p + 1);
    }
}

/// The tokens from `pos` up to the first `Eof`, which is left out.
pub open spec fn tokens_from(input: Seq<char>, pos: int) -> Seq<TokenV>
    decreases input.len() - pos,
{
    let l = lex(input, pos);
    if 0 <= pos <= input.len() && l.token != TokenV::Eof {
        proof {
            lemma_lex_advances(input, pos);
        }
        seq![l.token] + tokens_from(input, l.pos)
    } else {
        Seq::empty()
    }
}

/// All the tokens of a source text, up to the first `Eof`.
pub open spec fn tokens_of(source: Seq<char>) -> Seq<TokenV> {
    tokens_from(source, 0)
}

/// Whether one of the tokens from `pos` on is a number too large for 64
/// bits.
pub open spec fn overflows_from(input: Seq<char>, pos: int) -> bool
    decreases input.len() - pos,
{
    let l = lex(input, pos);
    if 0 <= pos <= input.len() && l.token != TokenV::Eof {
        proof {
            lemma_lex_advances(input, pos);
        }
        l.overflow || overflows_from(input, l.pos)
    } else {
        false
    }
}

/// A lexer over the characters of a source text.
#[derive(Debug)]
pub struct Lexer {
    input: Vec<char>,
    pos: usize,
    overflow: bool,
}

/// The state of a [`Lexer`]: the whole input, the position of the current
/// character, and whether a number too large for 64 bits has been met.
pub struct LexerV {
    pub input: Seq<char>,
    pub pos: int,
    pub overflow: bool,
}

impl View for Lexer {
    type V = LexerV;

    closed spec fn view(&self) -> LexerV {
        LexerV { input: self.input@, pos: self.pos as int, overflow: self.overflow }
    }
}

impl LexerV {
    /// The state after the next token has been taken.
    pub open spec fn step(self) -> LexerV {
        let l = lex(self.input, self.pos);
        LexerV { input: self.input, pos: l.pos, overflow: self.overflow || l.overflow }
    }

    /// The next token.
    pub open spec fn token(self) -> TokenV {
        lex(self.input, self.pos).token
    }

    /// The position is within the input or at its end.
    pub open spec fn wf(self) -> bool {
        0 <= self.pos <= self.input.len()
    }
}

impl Lexer {
    /// The position never lies beyond the end of the input.
    #[verifier::type_invariant]
    spec fn within(self) -> bool {
        self.pos <= self.input.len()
    }

    /// A lexer at the start of `origin_input`.
    pub fn new(origin_input: &str) -> (r: Self)
        ensures
            r@ == (LexerV { input: origin_input@, pos: 0, overflow: false }),
            r@.wf(),
    {
        Lexer { input: chars_of(origin_input), pos: 0, overflow: false }
    }

    /// The position of the current character.
    pub fn pos(&self) -> (r: usize)
        ensures
            r == self@.pos,
    {
        self.pos
    }

    /// The position of the character after the current one.
    pub fn next_pos(&self) -> (r: usize)
        ensures
            self@.pos < usize::MAX ==> r == self@.pos + 1,
            self@.pos == usize::MAX ==> r == usize::MAX,
    {
        if self.pos < usize::MAX {
            self.pos + 1
        } else {
            self.pos
        }
    }

    /// The current character, and NUL at the end of the input.
    pub fn ch(&self) -> (r: char)
        ensures
            r == char_at(self@.input, self@.pos),
    {
        if self.pos < self.input.len() {
            self.input[self.pos]
        } else {
            '\0'
        }
    }

    /// Whether a number too large for 64 bits has been met so far. Such a
    /// number is handed out as `Illegal`.
    pub fn overflowed(&self) -> (r: bool)
        ensures
            r == self@.overflow,
    {
        self.overflow
    }

    /// Moves to the next character, unless the input has ended.
    fn read_char(&mut self)
        ensures
            final(self)@.input == old(self)@.input,
            final(self)@.overflow == old(self)@.overflow,
            final(self)@.pos == if old(self)@.pos < old(self)@.input.len() {
                old(self)@.pos + 1
            } else {
                old(self)@.pos
            },
    {
        if self.pos < self.input.len() {
            self.pos = self.pos + 1;
        }
    }

    /// The character after the current one, and NUL at the end.
    fn nextch(&self) -> (r: char)
        ensures
            r == char_at(self@.input, self@.pos + 1),
    {
        if self.pos < self.input.len() && self.pos + 1 < self.input.len() {
            self.input[self.pos + 1]
        } else {
            '\0'
        }
    }

    /// Whether the character after the current one is `ch`.
    fn nextch_is(&self, ch: char) -> (r: bool)
        ensures
            r == (char_at(self@.input, self@.pos + 1) == ch),
    {
        self.nextch() == ch
    }

    /// Passes over whitespace.
    fn skip_whitespace(&mut self)
        ensures
            final(self)@.input == old(self)@.input,
            final(self)@.overflow == old(self)@.overflow,
            final(self)@.pos == skip_blanks(old(self)@.input, old(self)@.pos),
    {
        while self.pos < self.input.len() && is_whitespace(self.input[self.pos])
            invariant
                self@.input == old(self)@.input,
                self@.overflow == old(self)@.overflow,
                skip_blanks(self@.input, self@.pos) == skip_blanks(
                    old(self)@.input,
                    old(self)@.pos,
                ),
            decreases self.input.len() - self.pos,
        {
            self.pos = self.pos + 1;
        }
    }

    /// The next token. Once the input has ended, every call yields `Eof`.
    pub fn next_token(&mut self) -> (t: Token)
        ensures
            t@ == old(self)@.token(),
            final(self)@ == old(self)@.step(),
            old(self)@.wf(),
            final(self)@.wf(),
    {
        proof {
            use_type_invariant(&*self);
            lemma_lex_advances(old(self)@.input, old(self)@.pos);
        }
        loop
            invariant
                self@.input == old(self)@.input,
                self@.overflow == old(self)@.overflow,
                skip_gaps(self@.input, self@.pos) == skip_gaps(old(self)@.input, old(self)@.pos),
            ensures
                self@.pos == skip_gaps(old(self)@.input, old(self)@.pos),
            decreases self.input.len() - self.pos,
        {
            proof {
                lemma_skip_blanks(self@.input, self@.pos);
            }
            self.skip_whitespace();
            if self.ch() == '\n' && !self.nextch_is('\n') {
                self.read_char();
            } else {
                break ;
            }
        }
        let c = self.ch();
        let tok = if c == '=' {
            if self.nextch_is('=') {
                self.read_char();
                Token::Equal
            } else {
                Token::Assign
            }
        } else if c == '+' {
            Token::Plus
        } else if c == '-' {
            Token::Minus
        } else if c == '!' {
            if self.nextch_is('=') {
                self.read_char();
                Token::NotEqual
            } else {
                Token::Bang
            }
        } else if c == '/' {
            Token::Slash
        } else if c == '*' {
            Token::Asterisk
        } else if c == '<' {
            if self.nextch_is('=') {
                self.read_char();
                Token::LTEQ
            } else {
                Token::LT
            }
        } else if c == '>' {
            if self.nextch_is('=') {
                self.read_char();
                Token::GTEQ
            } else {
                Token::GT
            }
        } else if c == '(' {
            Token::LParen
        } else if c == ')' {
            Token::RParen
        } else if c == '{' {
            Token::LBrace
        } else if c == '}' {
            Token::RBrace
        } else if c == '.' {
            Token::Dot
        } else if c == '[' {
            Token::LBracket
        } else if c == ']' {
            Token::RBracket
        } else if c == ',' {
            Token::Comma
        } else if c == ';' {
            Token::Semicolon
        } else if c == ':' {
            Token::Colon
        } else if '0' <= c && c <= '9' {
            return self.consume_number();
        } else if c == '"' {
            return self.consume_string();
        } else if c == '\n' {
            Token::Blank
        } else if c == '\0' {
            return Token::Eof;
        } else if is_id_start(c) {
            return self.consume_identifier();
        } else {
            Token::Illegal
        };
        self.read_char();
        tok
    }

    /// The word that begins at the current character: a keyword, or an
    /// identifier in Normalization Form C.
    fn consume_identifier(&mut self) -> (t: Token)
        requires
            old(self).pos < old(self).input.len(),
        ensures
            t@ == lex_ident(old(self)@.input, old(self)@.pos).token,
            final(self)@.pos == lex_ident(old(self)@.input, old(self)@.pos).pos,
            final(self)@.input == old(self)@.input,
            final(self)@.overflow == old(self)@.overflow,
    {
        let start_pos = self.pos;
        self.pos = self.pos + 1;
        while self.pos < self.input.len() && is_id_continue(self.input[self.pos])
            invariant
                start_pos < self.pos <= self.input.len(),
                self@.input == old(self)@.input,
                self@.overflow == old(self)@.overflow,
                ident_end(self@.input, self@.pos) == ident_end(old(self)@.input, start_pos + 1),
            decreases self.input.len() - self.pos,
        {
            self.pos = self.pos + 1;
        }
        let end = self.pos;
        let v = &self.input;
        if span_is(v, start_pos, end, "let") {
            Token::Let
        } else if span_is(v, start_pos, end, "\u{7ed9}") {
            Token::Let
        } else if span_is(v, start_pos, end, "\u{4ee5}") {
            Token::Assign
        } else if span_is(v, start_pos, end, "\u{524d}\u{8fdb}") {
            Token::Plus
        } else if span_is(v, start_pos, end, "\u{964d}\u{7ef4}") {
            Token::Minus
        } else if span_is(v, start_pos, end, "const") {
            Token::Const
        } else if span_is(v, start_pos, end, "\u{601d}\u{60f3}\u{94a2}\u{5370}") {
            Token::Const
        } else if span_is(v, start_pos, end, "fn") {
            Token::Function
        } else if span_is(v, start_pos, end, "\u{6cd5}\u{5219}") {
            Token::Function
        } else if span_is(v, start_pos, end, "true") {
            Token::Bool(true)
        } else if span_is(v, start_pos, end, "false") {
            Token::Bool(false)
        } else if span_is(
            v,
            start_pos,
            end,
            "\u{8fd9}\u{662f}\u{8ba1}\u{5212}\u{7684}\u{4e00}\u{90e8}\u{5206}",
        ) {
            Token::Bool(true)
        } else if span_is(v, start_pos, end, "\u{4e3b}\u{4e0d}\u{5728}\u{4e4e}") {
            Token::Bool(false)
        } else if span_is(v, start_pos, end, "if") {
            Token::If
        } else if span_is(v, start_pos, end, "while") {
            Token::While
        } else if span_is(v, start_pos, end, "else") {
            Token::Else
        } else if span_is(v, start_pos, end, "break") {
            Token::Break
        } else if span_is(v, start_pos, end, "continue") {
            Token::Continue
        } else if span_is(v, start_pos, end, "return") {
            Token::Return
        } else if span_is(v, start_pos, end, "\u{9762}\u{58c1}") {
            Token::While
        } else if span_is(v, start_pos, end, "\u{7834}\u{58c1}") {
            Token::Break
        } else if span_is(v, start_pos, end, "\u{5ef6}\u{7eea}") {
            Token::Continue
        } else {
            let literal = text_of(v, start_pos, end);
            Token::Ident(nfc_normalize(literal.as_str()))
        }
    }

    /// The number that begins at the current character.
    fn consume_number(&mut self) -> (t: Token)
        requires
            old(self)@.pos <= old(self)@.input.len(),
        ensures
            t@ == lex_number(old(self)@.input, old(self)@.pos).token,
            final(self)@.pos == lex_number(old(self)@.input, old(self)@.pos).pos,
            final(self)@.input == old(self)@.input,
            final(self)@.overflow == (old(self)@.overflow || lex_number(
                old(self)@.input,
                old(self)@.pos,
            ).overflow),
    {
        let start_pos = self.pos;
        let mut value: i64 = 0;
        let mut over = false;
        assert(self@.input.subrange(start_pos as int, start_pos as int) =~= Seq::<char>::empty());
        while self.pos < self.input.len() && '0' <= self.input[self.pos] && self.input[self.pos]
            <= '9'
            invariant
                start_pos <= self.pos <= self.input.len(),
                self@.input == old(self)@.input,
                self@.overflow == old(self)@.overflow,
                digits_end(self@.input, self@.pos) == digits_end(
                    old(self)@.input,
                    start_pos as int,
                ),
                0 <= value,
                !over ==> value == decimal(self@.input.subrange(start_pos as int, self@.pos)),
                over ==> decimal(self@.input.subrange(start_pos as int, self@.pos)) > i64::MAX,
            decreases self.input.len() - self.pos,
        {
            let c = self.input[self.pos];
            let d: i64 = (c as u32 - '0' as u32) as i64;
            proof {
                let before = self@.input.subrange(start_pos as int, self@.pos);
                let after = self@.input.subrange(start_pos as int, self@.pos + 1);
                assert(after.drop_last() =~= before);
                assert(after.last() == c);
                assert(decimal(after) == decimal(before) * 10 + d);
            }
            if !over {
                match value.checked_mul(10) {
                    Some(m) => match m.checked_add(d) {
                        Some(s) => {
                            value = s;
                        },
                        None => {
                            over = true;
                        },
                    },
                    None => {
                        over = true;
                    },
                }
            }
            self.pos = self.pos + 1;
        }
        if over {
            self.overflow = true;
            Token::Illegal
        } else {
            Token::Int(value)
        }
    }

    /// The string literal whose opening quote is the current character.
    fn consume_string(&mut self) -> (t: Token)
        requires
            old(self).pos < old(self).input.len(),
        ensures
            t@ == lex_string(old(self)@.input, old(self)@.pos).token,
            final(self)@.pos == lex_string(old(self)@.input, old(self)@.pos).pos,
            final(self)@.input == old(self)@.input,
            final(self)@.overflow == old(self)@.overflow,
    {
        self.pos = self.pos + 1;
        let start_pos = self.pos;
        let mut bs = false;
        while self.pos < self.input.len() && self.input[self.pos] != '\0'
            invariant
                start_pos <= self.pos <= self.input.len(),
                start_pos == old(self)@.pos + 1,
                self@.input == old(self)@.input,
                self@.overflow == old(self)@.overflow,
                string_close(self@.input, self@.pos, bs) == string_close(
                    old(self)@.input,
                    start_pos as int,
                    false,
                ),
            decreases self.input.len() - self.pos,
        {
            if bs {
                bs = false;
            } else {
                let c = self.input[self.pos];
                if c == '"' {
                    let literal = unescape_span(&self.input, start_pos, self.pos);
                    self.pos = self.pos + 1;
                    return Token::String(literal);
                } else if c == '\\' {
                    bs = true;
                }
            }
            self.pos = self.pos + 1;
        }
        Token::String(String::from_str("<Lexer error: string: premature EOF>"))
    }
}

} // verus!
