//! Conversions between text and sequences of characters, and the decimal
//! notation of integers.

use vstd::prelude::*;
use vstd::std_specs::iter::IteratorSpec;
use vstd::string::StrSliceExecFns;

verus! {

/// Appends one character to `s`, as `String::push` does.
#[verifier::external_body]
pub fn push_char(s: &mut String, c: char)
    ensures
        final(s)@ == old(s)@.push(c),
{
    s.push(c)
}

/// The characters of `s`, in order.
pub fn chars_of(s: &str) -> (v: Vec<char>)
    ensures
        v@ == s@,
{
    broadcast use vstd::string::group_string_axioms;

    let mut it = s.chars();
    let mut v: Vec<char> = Vec::new();
    loop
        invariant
            it.obeys_prophetic_iter_laws(),
            it.decrease() is Some,
            v@ + it.remaining() == s@,
        ensures
            v@ == s@,
        decreases it.decrease()->0,
    {
        let ghost before = it;
        match it.next() {
            Some(c) => {
                assert(before.remaining().len() > 0);
                assert(v@.push(c) + it.remaining() =~= v@ + before.remaining());
                v.push(c);
            },
            None => {
                assert(v@ + it.remaining() =~= v@);
                break ;
            },
        }
    }
    v
}

/// The text made of the characters `v[from..to]`.
pub fn text_of(v: &Vec<char>, from: usize, to: usize) -> (s: String)
    requires
        from <= to <= v.len(),
    ensures
        s@ == v@.subrange(from as int, to as int),
{
    let mut s = String::new();
    let mut i: usize = from;
    while i < to
        invariant
            from <= i <= to <= v.len(),
            s@ == v@.subrange(from as int, i as int),
        decreases to - i,
    {
        push_char(&mut s, v[i]);
        assert(v@.subrange(from as int, i as int).push(v@[i as int]) =~= v@.subrange(
            from as int,
            i + 1,
        ));
        i = i + 1;
    }
    s
}

/// What an escape stands for: the character that follows the backslash.
pub open spec fn escaped(c: char) -> char {
    if c == 'n' {
        '\n'
    } else if c == 't' {
        '\t'
    } else if c == 'r' {
        '\r'
    } else if c == '0' {
        '\0'
    } else {
        c
    }
}

/// The text that the raw characters between two quotes stand for. A
/// backslash and the character after it stand for one character: newline,
/// tab, carriage return and NUL for `n`, `t`, `r` and `0`, and the character
/// itself for any other. A backslash that ends the text stands for itself.
pub open spec fn unescape(raw: Seq<char>) -> Seq<char>
    decreases raw.len(),
{
    if raw.len() == 0 {
        Seq::empty()
    } else if raw[0] == '\\' && raw.len() >= 2 {
        seq![escaped(raw[1])] + unescape(raw.skip(2))
    } else {
        seq![raw[0]] + unescape(raw.skip(1))
    }
}

/// Decodes the escapes of `v[from..to]`.
pub fn unescape_span(v: &Vec<char>, from: usize, to: usize) -> (s: String)
    requires
        from <= to <= v.len(),
    ensures
        s@ == unescape(v@.subrange(from as int, to as int)),
{
    let mut s = String::new();
    let mut i: usize = from;
    while i < to
        invariant
            from <= i <= to <= v.len(),
            s@ + unescape(v@.subrange(i as int, to as int)) == unescape(
                v@.subrange(from as int, to as int),
            ),
        decreases to - i,
    {
        let ghost rest = v@.subrange(i as int, to as int);
        let c = v[i];
        if c == '\\' && i + 1 < to {
            let e = v[i + 1];
            let d = if e == 'n' {
                '\n'
            } else if e == 't' {
                '\t'
            } else if e == 'r' {
                '\r'
            } else if e == '0' {
                '\0'
            } else {
                e
            };
            assert(rest.skip(2) =~= v@.subrange(i + 2, to as int));
            assert(s@.push(d) + unescape(v@.subrange(i + 2, to as int)) =~= s@ + unescape(rest));
            push_char(&mut s, d);
            i = i + 2;
        } else {
            assert(rest.skip(1) =~= v@.subrange(i + 1, to as int));
            assert(s@.push(c) + unescape(v@.subrange(i + 1, to as int)) =~= s@ + unescape(rest));
            push_char(&mut s, c);
            i = i + 1;
        }
    }
    assert(v@.subrange(to as int, to as int) =~= Seq::<char>::empty());
    assert(s@ + Seq::<char>::empty() =~= s@);
    s
}

/// Whether `v[from..to]` spells `word`.
pub fn span_is(v: &Vec<char>, from: usize, to: usize, word: &str) -> (b: bool)
    requires
        from <= to <= v.len(),
    ensures
        b == (v@.subrange(from as int, to as int) == word@),
{
    let n = word.unicode_len();
    if n != to - from {
        return false;
    }
    let mut i: usize = 0;
    while i < n
        invariant
            from <= to <= v.len(),
            n == to - from,
            n == word@.len(),
            i <= n,
            forall|j: int| 0 <= j < i ==> v@[from + j] == word@[j],
        decreases n - i,
    {
        if v[from + i] != word.get_char(i) {
            assert(v@.subrange(from as int, to as int)[i as int] != word@[i as int]);
            return false;
        }
        i = i + 1;
    }
    assert(v@.subrange(from as int, to as int) =~= word@);
    true
}

/// The digit that writes `d`, for `d` below ten.
pub open spec fn digit_char(d: nat) -> char {
    if d == 0 {
        '0'
    } else if d == 1 {
        '1'
    } else if d == 2 {
        '2'
    } else if d == 3 {
        '3'
    } else if d == 4 {
        '4'
    } else if d == 5 {
        '5'
    } else if d == 6 {
        '6'
    } else if d == 7 {
        '7'
    } else if d == 8 {
        '8'
    } else {
        '9'
    }
}

/// A natural number in base ten, without leading zeros.
pub open spec fn nat_text(n: nat) -> Seq<char>
    decreases n,
{
    if n < 10 {
        seq![digit_char(n)]
    } else {
        nat_text(n / 10).push(digit_char(n % 10))
    }
}

/// An integer in base ten, with a minus sign where it is negative.
pub open spec fn int_text(i: int) -> Seq<char> {
    if i < 0 {
        seq!['-'] + nat_text((-i) as nat)
    } else {
        nat_text(i as nat)
    }
}

/// The digit that writes `d`.
fn digit_of(d: u64) -> (c: char)
    requires
        d < 10,
    ensures
        c == digit_char(d as nat),
{
    if d == 0 {
        '0'
    } else if d == 1 {
        '1'
    } else if d == 2 {
        '2'
    } else if d == 3 {
        '3'
    } else if d == 4 {
        '4'
    } else if d == 5 {
        '5'
    } else if d == 6 {
        '6'
    } else if d == 7 {
        '7'
    } else if d == 8 {
        '8'
    } else {
        '9'
    }
}

/// Appends `n` in base ten to `s`.
pub fn push_nat(s: &mut String, n: u64)
    ensures
        final(s)@ == old(s)@ + nat_text(n as nat),
    decreases n,
{
    if n < 10 {
        push_char(s, digit_of(n));
        assert(old(s)@.push(digit_char(n as nat)) =~= old(s)@ + nat_text(n as nat));
    } else {
        push_nat(s, n / 10);
        push_char(s, digit_of(n % 10));
        assert((old(s)@ + nat_text((n / 10) as nat)).push(digit_char((n % 10) as nat)) =~= old(s)@
            + nat_text(n as nat));
    }
}

/// Appends `i` in base ten to `s`.
pub fn push_int(s: &mut String, i: i64)
    ensures
        final(s)@ == old(s)@ + int_text(i as int),
{
    if i < 0 {
        let magnitude: u64 = (-(i + 1)) as u64 + 1;
        push_char(s, '-');
        push_nat(s, magnitude);
        assert(old(s)@.push('-') + nat_text(magnitude as nat) =~= old(s)@ + (seq!['-'] + nat_text(
            magnitude as nat,
        )));
    } else {
        push_nat(s, i as u64);
    }
}

/// `n` in base ten.
pub fn nat_to_string(n: usize) -> (s: String)
    ensures
        s@ == nat_text(n as nat),
{
    let mut s = String::new();
    push_nat(&mut s, n as u64);
    assert(Seq::<char>::empty() + nat_text(n as nat) =~= nat_text(n as nat));
    s
}

/// `i` in base ten.
pub fn int_to_string(i: i64) -> (s: String)
    ensures
        s@ == int_text(i as int),
{
    let mut s = String::new();
    push_int(&mut s, i);
    assert(Seq::<char>::empty() + int_text(i as int) =~= int_text(i as int));
    s
}

/// How one character is written inside quotes: a backslash before a quote
/// and before a backslash, and `\n`, `\t`, `\r`, `\0` for newline, tab,
/// carriage return and NUL.
pub open spec fn escape_char(c: char) -> Seq<char> {
    if c == '"' {
        seq!['\\', '"']
    } else if c == '\\' {
        seq!['\\', '\\']
    } else if c == '\n' {
        seq!['\\', 'n']
    } else if c == '\t' {
        seq!['\\', 't']
    } else if c == '\r' {
        seq!['\\', 'r']
    } else if c == '\0' {
        seq!['\\', '0']
    } else {
        seq![c]
    }
}

/// A text with each character written as inside quotes.
pub open spec fn escape(s: Seq<char>) -> Seq<char>
    decreases s.len(),
{
    if s.len() == 0 {
        Seq::empty()
    } else {
        escape_char(s[0]) + escape(s.skip(1))
    }
}

/// A text as a string literal: escaped, between double quotes.
pub open spec fn quoted(s: Seq<char>) -> Seq<char> {
    seq!['"'] + escape(s) + seq!['"']
}

/// Appends `text` as a string literal to `s`.
pub fn push_quoted(s: &mut String, text: &str)
    ensures
        final(s)@ == old(s)@ + quoted(text@),
{
    let v = chars_of(text);
    push_char(s, '"');
    let mut i: usize = 0;
    assert(v@.skip(0) =~= v@);
    while i < v.len()
        invariant
            i <= v.len(),
            v@ == text@,
            s@ + escape(v@.skip(i as int)) == old(s)@.push('"') + escape(v@),
        decreases v.len() - i,
    {
        let ghost before = s@;
        let ghost rest = v@.skip(i as int);
        let c = v[i];
        assert(rest.skip(1) =~= v@.skip(i + 1));
        if c == '"' {
            push_char(s, '\\');
            push_char(s, '"');
        } else if c == '\\' {
            push_char(s, '\\');
            push_char(s, '\\');
        } else if c == '\n' {
            push_char(s, '\\');
            push_char(s, 'n');
        } else if c == '\t' {
            push_char(s, '\\');
            push_char(s, 't');
        } else if c == '\r' {
            push_char(s, '\\');
            push_char(s, 'r');
        } else if c == '\0' {
            push_char(s, '\\');
            push_char(s, '0');
        } else {
            push_char(s, c);
        }
        assert(s@ =~= before + escape_char(c));
        assert(s@ + escape(v@.skip(i + 1)) =~= before + escape(rest));
        i = i + 1;
    }
    assert(v@.skip(v.len() as int) =~= Seq::<char>::empty());
    push_char(s, '"');
    assert(s@ =~= old(s)@ + quoted(text@));
}

/// The escapes of [`escape`] are the ones that [`unescape`] decodes: a
/// text that is written as inside quotes and read back is the same text.
pub proof fn lemma_unescape_escape(s: Seq<char>)
    ensures
        unescape(escape(s)) == s,
    decreases s.len(),
{
    if s.len() > 0 {
        let c = s[0];
        let rest = s.skip(1);
        lemma_unescape_escape(rest);
        let e = escape(rest);
        if c == '"' || c == '\\' || c == '\n' || c == '\t' || c == '\r' || c == '\0' {
            assert((escape_char(c) + e).skip(2) =~= e);
        } else {
            assert((escape_char(c) + e).skip(1) =~= e);
        }
        assert(seq![c] + rest =~= s);
    }
}

} // verus!
