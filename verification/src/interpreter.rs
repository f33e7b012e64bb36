//! From source text to a value: lexing, parsing and evaluation in a fresh
//! environment.

use crate::ast::{block_view, Program, StmtV};
use crate::evaluator::builtins::{new_builtins, registry};
use crate::evaluator::env::{map_of, Env, EnvV, FrameV};
use crate::evaluator::host::Host;
use crate::evaluator::object::{Object, ObjectV};
use crate::evaluator::semantics::{eval_program, Limits, World};
use crate::evaluator::values::Fatal;
use crate::evaluator::{value_opt, Evaluator, DEFAULT_DEPTH, DEFAULT_ITERATIONS};
use crate::lexer::{lemma_lex_advances, overflows_from, tokens_of, Lexer};
use crate::parser::base::{errors_view, ParseError, Parser};
use crate::parser::grammar::{program, ParseErrorV, Parsed};
use crate::token::Token;
use vstd::prelude::*;

verus! {

/// How the interpretation of a source text ended.
pub enum Outcome {
    /// A number in the source does not fit in 64 bits.
    TooLarge,
    /// The source does not parse; nothing was evaluated.
    Invalid(Vec<ParseError>),
    /// A failure ended the evaluation.
    Failed(Fatal),
    /// The program was evaluated; it may have no value.
    Done(Option<Object>),
}

/// The value of an [`Outcome`].
pub enum OutcomeV {
    TooLarge,
    Invalid(Seq<ParseErrorV>),
    Failed(Fatal),
    Done(Option<ObjectV>),
}

impl View for Outcome {
    type V = OutcomeV;

    open spec fn view(&self) -> OutcomeV {
        match self {
            Outcome::TooLarge => OutcomeV::TooLarge,
            Outcome::Invalid(errors) => OutcomeV::Invalid(errors_view(errors@)),
            Outcome::Failed(f) => OutcomeV::Failed(*f),
            Outcome::Done(v) => OutcomeV::Done(value_opt(*v)),
        }
    }
}

/// What the parser makes of a source text: the program and the errors.
pub open spec fn parsed(source: Seq<char>) -> Parsed<Seq<StmtV>> {
    program(tokens_of(source), 0, Seq::empty(), Seq::empty())
}

/// The environment in which a source text is evaluated: one scope with the
/// native functions.
pub open spec fn fresh_env() -> EnvV {
    EnvV {
        frames: seq![
            FrameV {
                store: map_of(registry()),
                constants: Set::empty(),
                outer: None,
                captured: false,
            },
        ],
        current: 0,
    }
}

/// The limits that the library sets.
pub open spec fn default_limits() -> Limits {
    Limits { depth: DEFAULT_DEPTH as nat, iterations: DEFAULT_ITERATIONS as nat }
}

/// What a source text means with a host in the state `host`: nothing is
/// evaluated where a number is too large or where the parser records an
/// error; else the program is evaluated in a fresh environment.
pub open spec fn meaning<H: Host>(source: Seq<char>, host: H::State) -> OutcomeV {
    if overflows_from(source, 0) {
        OutcomeV::TooLarge
    } else if parsed(source).errors.len() > 0 {
        OutcomeV::Invalid(parsed(source).errors)
    } else {
        match eval_program::<H>(
            default_limits(),
            World { env: fresh_env(), host },
            parsed(source).node.unwrap(),
        ).value {
            Ok(v) => OutcomeV::Done(v),
            Err(f) => OutcomeV::Failed(f),
        }
    }
}

/// The state of the host after the interpretation of a source text. After
/// a failure it is the state that the failure left.
pub open spec fn host_after<H: Host>(source: Seq<char>, host: H::State) -> H::State {
    if overflows_from(source, 0) || parsed(source).errors.len() > 0 {
        host
    } else {
        eval_program::<H>(
            default_limits(),
            World { env: fresh_env(), host },
            parsed(source).node.unwrap(),
        ).world.host
    }
}

/// Whether a number in the source does not fit in 64 bits.
pub fn has_overflow(source: &str) -> (r: bool)
    ensures
        r == overflows_from(source@, 0),
{
    let mut lexer = Lexer::new(source);
    loop
        invariant
            lexer@.wf(),
            lexer@.input == source@,
            (lexer@.overflow || overflows_from(source@, lexer@.pos)) == overflows_from(
                source@,
                0,
            ),
        decreases lexer@.input.len() - lexer@.pos,
    {
        proof {
            lemma_lex_advances(lexer@.input, lexer@.pos);
        }
        let t = lexer.next_token();
        if t == Token::Eof {
            return lexer.overflowed();
        }
    }
}

/// Parses a source text: the program, and the errors that the parser
/// recorded.
pub fn parse_source(source: &str) -> (r: (Program, Vec<ParseError>))
    ensures
        Some(block_view(r.0)) == parsed(source@).node,
        errors_view(r.1@) == parsed(source@).errors,
{
    let mut parser = Parser::new(Lexer::new(source));
    let program = parser.parse();
    let errors = parser.get_errors();
    (program, errors)
}

/// Interprets a source text with the host `host`.
pub fn interpret<H: Host>(source: &str, host: &mut H) -> (r: Outcome)
    ensures
        r@ == meaning::<H>(source@, old(host).state()),
        final(host).state() == host_after::<H>(source@, old(host).state()),
{
    if has_overflow(source) {
        return Outcome::TooLarge;
    }
    let (program, errors) = parse_source(source);
    if errors.len() > 0 {
        return Outcome::Invalid(errors);
    }
    let env = Env::from(new_builtins());
    assert(env@ == fresh_env());
    let mut evaluator = Evaluator::new(env);
    match evaluator.eval(&program, host) {
        Ok(v) => Outcome::Done(v),
        Err(f) => Outcome::Failed(f),
    }
}

/// The same source text with a host in the same state means the same:
/// nothing but the text and the host decides how an interpretation ends.
pub proof fn lemma_same_source_same_outcome<H: Host>(a: Seq<char>, b: Seq<char>, host: H::State)
    requires
        a == b,
    ensures
        meaning::<H>(a, host) == meaning::<H>(b, host),
        host_after::<H>(a, host) == host_after::<H>(b, host),
{
}

} // verus!
