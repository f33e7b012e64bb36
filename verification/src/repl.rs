//! What a line editor needs to know of a line: where the word under the
//! cursor begins, which names complete it, and whether the line is a whole
//! program yet.

use crate::interpreter::{parse_source, parsed};
use crate::lexer::{is_whitespace, whitespace};
use crate::parser::base::{errors_view, ParseError};
use crate::text::{chars_of, text_of};
use crate::token::{Token, TokenV};
use vstd::prelude::*;

verus! {

/// What a line editor is told of a line.
pub enum Validation {
    /// The line parses.
    Valid,
    /// The line ends too early: more input may complete it.
    Incomplete,
    /// The line does not parse; the first error says why.
    Invalid(ParseError),
}

/// The helper of the line editor.
pub struct Helper {}

impl Helper {
    pub fn new() -> Self {
        Helper {  }
    }

    /// Whether `input` is a whole program: valid where the parser records
    /// no error, incomplete where its first error met the end of the input,
    /// invalid with that error where it met another token.
    pub fn validate(&self, input: &str) -> (r: Validation)
        ensures
            match r {
                Validation::Valid => parsed(input@).errors.len() == 0,
                Validation::Incomplete => parsed(input@).errors.len() > 0 && parsed(
                    input@,
                ).errors[0].got == TokenV::Eof,
                Validation::Invalid(e) => parsed(input@).errors.len() > 0 && parsed(
                    input@,
                ).errors[0].got != TokenV::Eof && e@ == parsed(input@).errors[0],
            },
    {
        let (_, errors) = parse_source(input);
        if errors.len() == 0 {
            return Validation::Valid;
        }
        assert(errors_view(errors@)[0] == errors[0]@);
        match &errors[0] {
            ParseError::UnexpectedToken { want: _, got: Token::Eof } => Validation::Incomplete,
            x => Validation::Invalid(x.clone()),
        }
    }

    /// The line is validated when it is entered, not while it is typed.
    pub fn validate_while_typing(&self) -> (r: bool)
        ensures
            !r,
    {
        false
    }
}

/// The place of the first whitespace character of `s` from place `i` on.
pub open spec fn first_blank(s: Seq<char>, i: nat) -> Option<nat>
    decreases s.len() - i,
{
    if i >= s.len() {
        None
    } else if whitespace(s[i as int]) {
        Some(i)
    } else {
        first_blank(s, i + 1)
    }
}

/// Where the word before the cursor begins: after the first whitespace
/// character of the line, and at the start of a line that has none.
pub open spec fn word_start(line: Seq<char>, pos: nat) -> nat {
    match first_blank(line.take(pos as int), 0) {
        Some(k) => k + 1,
        None => 0,
    }
}

/// Given a `line` and a cursor position, counted in characters, the place
/// where the word before the cursor begins, and that word up to the
/// cursor.
pub fn extract_word(line: &str, pos: usize) -> (r: (usize, String))
    requires
        pos <= line@.len(),
    ensures
        r.0 == word_start(line@, pos as nat),
        r.0 <= pos,
        r.1@ == line@.subrange(r.0 as int, pos as int),
{
    let v = chars_of(line);
    let ghost head = line@.take(pos as int);
    let mut i: usize = 0;
    while i < pos
        invariant
            i <= pos <= v.len(),
            v@ == line@,
            head == line@.take(pos as int),
            first_blank(head, i as nat) == first_blank(head, 0),
        decreases pos - i,
    {
        assert(head[i as int] == v@[i as int]);
        if is_whitespace(v[i]) {
            return (i + 1, text_of(&v, i + 1, pos));
        }
        i = i + 1;
    }
    (0, text_of(&v, 0, pos))
}

/// The names among `names` that begin with `word`, in their order.
pub fn complete(names: &Vec<String>, word: &str) -> (r: Vec<String>)
    ensures
        r@.map_values(|s: String| s@) == names@.map_values(|s: String| s@).filter(
            |n: Seq<char>| word@.is_prefix_of(n),
        ),
{
    let w = chars_of(word);
    let mut out: Vec<String> = Vec::new();
    let ghost all = names@.map_values(|s: String| s@);
    let ghost keep = |n: Seq<char>| word@.is_prefix_of(n);
    let mut i: usize = 0;
    assert(all.take(0) =~= Seq::<Seq<char>>::empty());
    assert(out@.map_values(|s: String| s@) =~= Seq::<Seq<char>>::empty());
    assert(all.take(0).filter(keep) =~= Seq::<Seq<char>>::empty()) by {
        reveal(Seq::filter);
    }
    while i < names.len()
        invariant
            i <= names.len(),
            w@ == word@,
            all == names@.map_values(|s: String| s@),
            keep == |n: Seq<char>| word@.is_prefix_of(n),
            out@.map_values(|s: String| s@) == all.take(i as int).filter(keep),
        decreases names.len() - i,
    {
        let name = chars_of(names[i].as_str());
        let fits = starts_with(&name, &w);
        let ghost before = out@.map_values(|s: String| s@);
        proof {
            assert(all.take(i + 1) =~= all.take(i as int).push(all[i as int]));
            filter_push(all.take(i as int), all[i as int], keep);
        }
        if fits {
            out.push(names[i].clone());
            assert(out@.map_values(|s: String| s@) =~= before.push(names[i as int]@));
        }
        i = i + 1;
    }
    assert(all.take(names.len() as int) =~= all);
    out
}

/// A filter keeps the last item of a sequence where the item passes, and
/// drops it where it does not.
pub proof fn filter_push<A>(s: Seq<A>, x: A, keep: spec_fn(A) -> bool)
    ensures
        s.push(x).filter(keep) == if keep(x) {
            s.filter(keep).push(x)
        } else {
            s.filter(keep)
        },
{
    reveal(Seq::filter);
    assert(s.push(x).drop_last() =~= s);
}

/// Whether `name` begins with `word`.
fn starts_with(name: &Vec<char>, word: &Vec<char>) -> (r: bool)
    ensures
        r == word@.is_prefix_of(name@),
{
    if word.len() > name.len() {
        return false;
    }
    let mut i: usize = 0;
    while i < word.len()
        invariant
            i <= word.len() <= name.len(),
            forall|j: int| 0 <= j < i ==> word[j] == name[j],
        decreases word.len() - i,
    {
        if word[i] != name[i] {
            assert(word@[i as int] != name@.subrange(0, word@.len() as int)[i as int]);
            return false;
        }
        i = i + 1;
    }
    assert(word@ =~= name@.subrange(0, word@.len() as int));
    true
}

} // verus!
