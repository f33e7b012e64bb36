//! The host of an interpreter: what lends it the capabilities that the
//! language itself does not have, such as printing or sleeping.

use crate::evaluator::object::{display, objects_view, Object, ObjectV};
use vstd::prelude::*;

verus! {

/// A host. Interpreted code calls a capability by its name, with the
/// values of its arguments, and gets a value back. What the host answers,
/// and what becomes of the host, depends on the state of the host, the
/// name and the arguments, and on nothing else: that is the promise of
/// `invoke`, which each host of this library is proved to keep. A host
/// from elsewhere that does not say what `state`, `reply` and `next` are
/// leaves them to stand for a state, an answer and a next state of which
/// nothing is known, and what is proved of an evaluation holds as far as
/// such a host keeps the promise.
pub trait Host {
    /// What the interpreter may know of the host.
    type State;

    /// The state of the host.
    closed spec fn state(&self) -> Self::State {
        arbitrary()
    }

    /// What the host answers in state `s`.
    closed spec fn reply(s: Self::State, name: Seq<char>, args: Seq<ObjectV>) -> ObjectV {
        arbitrary()
    }

    /// The state of the host after the call.
    closed spec fn next(s: Self::State, name: Seq<char>, args: Seq<ObjectV>) -> Self::State {
        arbitrary()
    }

    /// Calls the capability `name`.
    fn invoke(&mut self, name: &str, args: &Vec<Object>) -> (r: Object)
        ensures
            r@ == Self::reply(old(self).state(), name@, objects_view(*args)),
            final(self).state() == Self::next(old(self).state(), name@, objects_view(*args)),
    ;
}

/// A host that lends nothing: every capability answers `Null`.
pub struct NoHost;

impl Host for NoHost {
    type State = ();

    open spec fn state(&self) -> () {
        ()
    }

    open spec fn reply(s: (), name: Seq<char>, args: Seq<ObjectV>) -> ObjectV {
        ObjectV::Null
    }

    open spec fn next(s: (), name: Seq<char>, args: Seq<ObjectV>) -> () {
        ()
    }

    fn invoke(&mut self, name: &str, args: &Vec<Object>) -> (r: Object) {
        Object::Null
    }
}

/// The lines that a call adds to a transcript: its arguments as they are
/// printed, from place `i` on.
pub open spec fn printed(args: Seq<ObjectV>, i: nat) -> Seq<Seq<char>>
    decreases args.len() - i,
{
    if i >= args.len() {
        Seq::empty()
    } else {
        seq![display(args[i as int])] + printed(args, i + 1)
    }
}

/// A host that keeps what is handed to it: each call of any capability
/// adds its arguments, as they are printed, to the transcript, one line
/// each, and answers `Null`.
pub struct Transcript {
    pub lines: Vec<String>,
}

/// The texts of a list of lines.
pub open spec fn lines_view(lines: Seq<String>) -> Seq<Seq<char>> {
    lines.map_values(|l: String| l@)
}

impl Transcript {
    /// An empty transcript.
    pub fn new() -> (r: Self)
        ensures
            r.state() == Seq::<Seq<char>>::empty(),
    {
        let r = Transcript { lines: Vec::new() };
        assert(lines_view(r.lines@) =~= Seq::<Seq<char>>::empty());
        r
    }
}

impl Host for Transcript {
    type State = Seq<Seq<char>>;

    open spec fn state(&self) -> Seq<Seq<char>> {
        lines_view(self.lines@)
    }

    open spec fn reply(s: Seq<Seq<char>>, name: Seq<char>, args: Seq<ObjectV>) -> ObjectV {
        ObjectV::Null
    }

    open spec fn next(s: Seq<Seq<char>>, name: Seq<char>, args: Seq<ObjectV>) -> Seq<Seq<char>> {
        s + printed(args, 0)
    }

    fn invoke(&mut self, name: &str, args: &Vec<Object>) -> (r: Object) {
        let ghost before = self.state();
        let ghost values = objects_view(*args);
        let mut i: usize = 0;
        assert(self.state() + printed(values, 0) == before + printed(values, 0));
        while i < args.len()
            invariant
                i <= args.len(),
                values == objects_view(*args),
                self.state() + printed(values, i as nat) == before + printed(values, 0),
            decreases args.len() - i,
        {
            let ghost lines = self.state();
            let line = args[i].to_text();
            self.lines.push(line);
            assert(self.state() =~= lines.push(display(values[i as int])));
            assert(self.state() + printed(values, (i + 1) as nat) =~= lines + printed(
                values,
                i as nat,
            ));
            i = i + 1;
        }
        assert(self.state() + Seq::<Seq<char>>::empty() =~= self.state());
        Object::Null
    }
}

} // verus!
