//! Environments: a chain of scopes from names to values. The scopes live
//! in one store and name each other by their place in it; a scope made
//! later may have an earlier one as its outer scope, never the reverse.

use crate::evaluator::object::{Object, ObjectV};
use vstd::prelude::*;

verus! {

/// How an assignment to an existing name ended.
#[derive(PartialEq, Eq, Structural, Clone, Copy, Debug)]
pub enum Info {
    ConstantForbidden,
    NoIdentifier,
    Succeed,
}

/// What the current scope, and it alone, holds under a name.
#[derive(PartialEq, Eq, Structural, Clone, Copy, Debug)]
pub enum CheckInnerInfo {
    ConstantExist,
    VariableExist,
    NoIdentifier,
}

/// One scope: its bindings, the names marked constant, its outer scope,
/// and whether a closure was made in it.
pub struct Frame {
    entries: Vec<(String, Object)>,
    constants: Vec<String>,
    outer: Option<usize>,
    captured: bool,
}

/// The value of a scope.
pub struct FrameV {
    pub store: Map<Seq<char>, ObjectV>,
    pub constants: Set<Seq<char>>,
    pub outer: Option<nat>,
    pub captured: bool,
}

/// The mapping that a list of bindings stands for: a later binding of a
/// name hides an earlier one.
pub open spec fn store_of(entries: Seq<(String, Object)>) -> Map<Seq<char>, ObjectV>
    decreases entries.len(),
{
    if entries.len() == 0 {
        Map::empty()
    } else {
        store_of(entries.drop_last()).insert(entries.last().0@, entries.last().1@)
    }
}

/// The names and values of a list of bindings.
pub open spec fn bindings_view(v: Seq<(String, Object)>) -> Seq<(Seq<char>, ObjectV)> {
    v.map_values(|b: (String, Object)| (b.0@, b.1@))
}

/// The mapping that a list of names and values stands for: a later pair
/// hides an earlier one of the same name.
pub open spec fn map_of(bindings: Seq<(Seq<char>, ObjectV)>) -> Map<Seq<char>, ObjectV>
    decreases bindings.len(),
{
    if bindings.len() == 0 {
        Map::empty()
    } else {
        map_of(bindings.drop_last()).insert(bindings.last().0, bindings.last().1)
    }
}

/// The mapping of a list of bindings is the mapping of their names and
/// values.
pub proof fn lemma_store_of(entries: Seq<(String, Object)>)
    ensures
        store_of(entries) == map_of(bindings_view(entries)),
    decreases entries.len(),
{
    if entries.len() > 0 {
        lemma_store_of(entries.drop_last());
        assert(bindings_view(entries).drop_last() =~= bindings_view(entries.drop_last()));
    }
}

/// The set of the names in a list.
pub open spec fn names_of(names: Seq<String>) -> Set<Seq<char>> {
    Set::new(|n: Seq<char>| exists|i: int| 0 <= i < names.len() && names[i]@ == n)
}

/// A name that no binding has is not in the mapping.
pub proof fn lemma_store_absent(entries: Seq<(String, Object)>, name: Seq<char>)
    requires
        forall|j: int| 0 <= j < entries.len() ==> entries[j].0@ != name,
    ensures
        !store_of(entries).contains_key(name),
    decreases entries.len(),
{
    if entries.len() > 0 {
        lemma_store_absent(entries.drop_last(), name);
    }
}

/// The mapping holds, under a name, the value of the last binding of it.
pub proof fn lemma_store_found(entries: Seq<(String, Object)>, i: int, name: Seq<char>)
    requires
        0 <= i < entries.len(),
        entries[i].0@ == name,
        forall|j: int| i < j < entries.len() ==> entries[j].0@ != name,
    ensures
        store_of(entries).contains_key(name),
        store_of(entries)[name] == entries[i].1@,
    decreases entries.len(),
{
    if i < entries.len() - 1 {
        lemma_store_found(entries.drop_last(), i, name);
    }
}

/// To replace the last binding of a name is to map the name anew.
pub proof fn lemma_store_replace(
    entries: Seq<(String, Object)>,
    i: int,
    name: Seq<char>,
    e: (String, Object),
)
    requires
        0 <= i < entries.len(),
        entries[i].0@ == name,
        e.0@ == name,
        forall|j: int| i < j < entries.len() ==> entries[j].0@ != name,
    ensures
        store_of(entries.update(i, e)) == store_of(entries).insert(name, e.1@),
    decreases entries.len(),
{
    let updated = entries.update(i, e);
    if i == entries.len() - 1 {
        assert(updated.drop_last() =~= entries.drop_last());
        assert(store_of(updated) =~= store_of(entries).insert(name, e.1@));
    } else {
        lemma_store_replace(entries.drop_last(), i, name, e);
        assert(updated.drop_last() =~= entries.drop_last().update(i, e));
        assert(store_of(updated) =~= store_of(entries).insert(name, e.1@));
    }
}

/// The names that the mapping holds are the names of the bindings.
pub proof fn lemma_store_names(entries: Seq<(String, Object)>, name: Seq<char>)
    ensures
        store_of(entries).contains_key(name) <==> exists|i: int|
            0 <= i < entries.len() && entries[i].0@ == name,
    decreases entries.len(),
{
    if entries.len() > 0 {
        lemma_store_names(entries.drop_last(), name);
        if store_of(entries).contains_key(name) {
            if entries.last().0@ == name {
                assert(entries[entries.len() - 1].0@ == name);
            } else {
                let i = choose|i: int|
                    0 <= i < entries.drop_last().len() && entries.drop_last()[i].0@ == name;
                assert(entries[i].0@ == name);
            }
        } else {
            assert forall|i: int| 0 <= i < entries.len() implies entries[i].0@ != name by {
                if i < entries.len() - 1 {
                    assert(entries.drop_last()[i].0@ == entries[i].0@);
                }
            }
        }
    }
}

/// One more binding at the end maps its name anew.
pub proof fn lemma_store_push(entries: Seq<(String, Object)>, e: (String, Object))
    ensures
        store_of(entries.push(e)) == store_of(entries).insert(e.0@, e.1@),
{
    assert(entries.push(e).drop_last() =~= entries);
}

impl View for Frame {
    type V = FrameV;

    closed spec fn view(&self) -> FrameV {
        FrameV {
            store: store_of(self.entries@),
            constants: names_of(self.constants@),
            outer: match self.outer {
                Some(o) => Some(o as nat),
                None => None,
            },
            captured: self.captured,
        }
    }
}

impl Frame {
    /// An empty scope.
    fn empty(outer: Option<usize>) -> (r: Frame)
        ensures
            r@ == (FrameV {
                store: Map::empty(),
                constants: Set::empty(),
                outer: match outer {
                    Some(o) => Some(o as nat),
                    None => None,
                },
                captured: false,
            }),
    {
        let r = Frame { entries: Vec::new(), constants: Vec::new(), outer, captured: false };
        assert(names_of(r.constants@) =~= Set::<Seq<char>>::empty());
        r
    }

    /// The place of the last binding of `name`.
    fn find(&self, name: &String) -> (r: Option<usize>)
        ensures
            match r {
                Some(i) => i < self.entries.len() && self.entries[i as int].0@ == name@
                    && self@.store.contains_key(name@) && self@.store[name@]
                    == self.entries[i as int].1@ && forall|j: int|
                    i < j < self.entries.len() ==> self.entries[j].0@ != name@,
                None => !self@.store.contains_key(name@),
            },
    {
        let mut i: usize = self.entries.len();
        while i > 0
            invariant
                i <= self.entries.len(),
                forall|j: int| i <= j < self.entries.len() ==> self.entries[j].0@ != name@,
            decreases i,
        {
            i = i - 1;
            if self.entries[i].0 == *name {
                proof {
                    lemma_store_found(self.entries@, i as int, name@);
                }
                return Some(i);
            }
        }
        proof {
            lemma_store_absent(self.entries@, name@);
        }
        None
    }

    /// Whether `name` is marked constant.
    fn is_marked(&self, name: &String) -> (r: bool)
        ensures
            r == self@.constants.contains(name@),
    {
        let mut i: usize = 0;
        while i < self.constants.len()
            invariant
                i <= self.constants.len(),
                forall|j: int| 0 <= j < i ==> self.constants[j]@ != name@,
            decreases self.constants.len() - i,
        {
            if self.constants[i] == *name {
                return true;
            }
            i = i + 1;
        }
        false
    }

    /// Binds `name` to `value`.
    fn bind(&mut self, name: String, value: Object)
        ensures
            final(self)@.store == old(self)@.store.insert(name@, value@),
            final(self)@.constants == old(self)@.constants,
            final(self)@.outer == old(self)@.outer,
            final(self)@.captured == old(self)@.captured,
    {
        match self.find(&name) {
            Some(i) => {
                let e = (name, value);
                proof {
                    lemma_store_replace(self.entries@, i as int, e.0@, e);
                }
                self.entries[i] = e;
            },
            None => {
                let e = (name, value);
                proof {
                    lemma_store_push(self.entries@, e);
                }
                self.entries.push(e);
            },
        }
    }

    /// Marks `name` constant.
    fn mark(&mut self, name: String)
        ensures
            final(self)@.store == old(self)@.store,
            final(self)@.constants == old(self)@.constants.insert(name@),
            final(self)@.outer == old(self)@.outer,
            final(self)@.captured == old(self)@.captured,
    {
        if !self.is_marked(&name) {
            let ghost before = self.constants@;
            self.constants.push(name);
            assert(names_of(self.constants@) =~= names_of(before).insert(name@)) by {
                assert forall|n: Seq<char>| names_of(before).insert(name@).contains(n) implies names_of(
                    self.constants@,
                ).contains(n) by {
                    if n == name@ {
                        assert(self.constants@[before.len() as int]@ == n);
                    } else {
                        let i = choose|i: int| 0 <= i < before.len() && before[i]@ == n;
                        assert(self.constants@[i]@ == n);
                    }
                }
            }
        } else {
            assert(self@.constants.insert(name@) =~= self@.constants);
        }
    }
}

/// A chain of scopes with the scope that is current.
pub struct Env {
    frames: Vec<Frame>,
    current: usize,
}

/// The value of an [`Env`]: all its scopes, and the place of the current
/// one.
pub struct EnvV {
    pub frames: Seq<FrameV>,
    pub current: nat,
}

impl EnvV {
    /// The current scope exists, and every outer scope was made before the
    /// scope that names it.
    pub open spec fn wf(self) -> bool {
        &&& self.current < self.frames.len()
        &&& forall|i: int|
            0 <= i < self.frames.len() ==> (#[trigger] self.frames[i].outer matches Some(o) ==> o
                < i)
    }

    /// What `name` stands for, seen from the scope at `frame`: the nearest
    /// binding on the way outward.
    pub open spec fn lookup(self, frame: nat, name: Seq<char>) -> Option<ObjectV>
        decreases frame,
    {
        if frame >= self.frames.len() {
            None
        } else if self.frames[frame as int].store.contains_key(name) {
            Some(self.frames[frame as int].store[name])
        } else {
            match self.frames[frame as int].outer {
                Some(o) => if o < frame {
                    self.lookup(o, name)
                } else {
                    None
                },
                None => None,
            }
        }
    }

    /// What `name` stands for, seen from the current scope.
    pub open spec fn get(self, name: Seq<char>) -> Option<ObjectV> {
        self.lookup(self.current, name)
    }

    /// The environment with `name` bound to `value` in the current scope.
    pub open spec fn set(self, name: Seq<char>, value: ObjectV) -> EnvV {
        let f = self.frames[self.current as int];
        EnvV {
            frames: self.frames.update(
                self.current as int,
                FrameV {
                    store: f.store.insert(name, value),
                    constants: f.constants,
                    outer: f.outer,
                    captured: f.captured,
                },
            ),
            current: self.current,
        }
    }

    /// The environment with `name` marked constant in the current scope.
    pub open spec fn constant(self, name: Seq<char>) -> EnvV {
        let f = self.frames[self.current as int];
        EnvV {
            frames: self.frames.update(
                self.current as int,
                FrameV {
                    store: f.store,
                    constants: f.constants.insert(name),
                    outer: f.outer,
                    captured: f.captured,
                },
            ),
            current: self.current,
        }
    }

    /// Whether `name` is marked constant in the current scope.
    pub open spec fn is_constant(self, name: Seq<char>) -> bool {
        self.frames[self.current as int].constants.contains(name)
    }

    /// What the current scope alone holds under `name`.
    pub open spec fn check_inner(self, name: Seq<char>) -> CheckInnerInfo {
        let f = self.frames[self.current as int];
        if !f.store.contains_key(name) {
            CheckInnerInfo::NoIdentifier
        } else if f.constants.contains(name) {
            CheckInnerInfo::ConstantExist
        } else {
            CheckInnerInfo::VariableExist
        }
    }

    /// The assignment of `value` to `name`, seen from the scope at `frame`:
    /// the nearest scope on the way outward that binds the name takes the
    /// value, unless it marks the name constant.
    pub open spec fn update_from(self, frame: nat, name: Seq<char>, value: ObjectV) -> (EnvV, Info)
        decreases frame,
    {
        if frame >= self.frames.len() {
            (self, Info::NoIdentifier)
        } else {
            let f = self.frames[frame as int];
            if f.store.contains_key(name) {
                if f.constants.contains(name) {
                    (self, Info::ConstantForbidden)
                } else {
                    (
                        EnvV {
                            frames: self.frames.update(
                                frame as int,
                                FrameV {
                                    store: f.store.insert(name, value),
                                    constants: f.constants,
                                    outer: f.outer,
                                    captured: f.captured,
                                },
                            ),
                            current: self.current,
                        },
                        Info::Succeed,
                    )
                }
            } else {
                match f.outer {
                    Some(o) => if o < frame {
                        self.update_from(o, name, value)
                    } else {
                        (self, Info::NoIdentifier)
                    },
                    None => (self, Info::NoIdentifier),
                }
            }
        }
    }

    /// The assignment of `value` to `name`, seen from the current scope.
    pub open spec fn update(self, name: Seq<char>, value: ObjectV) -> (EnvV, Info) {
        self.update_from(self.current, name, value)
    }

    /// The environment with one more scope, empty, whose outer scope is
    /// the one at `outer`; the new scope is current.
    pub open spec fn enter(self, outer: nat) -> EnvV {
        EnvV {
            frames: self.frames.push(
                FrameV {
                    store: Map::empty(),
                    constants: Set::empty(),
                    outer: Some(outer),
                    captured: false,
                },
            ),
            current: self.frames.len(),
        }
    }

    /// The environment with the current scope marked as the scope of a
    /// closure.
    pub open spec fn capture(self) -> EnvV {
        let f = self.frames[self.current as int];
        EnvV {
            frames: self.frames.update(
                self.current as int,
                FrameV { store: f.store, constants: f.constants, outer: f.outer, captured: true },
            ),
            current: self.current,
        }
    }

    /// Whether the current scope can go when it is left for the scope at
    /// `previous`: it is the scope made last, it was made after the one at
    /// `previous`, and no closure was made in it. Then no scope and no
    /// closure refers to it.
    pub open spec fn disposable(self, previous: nat) -> bool {
        &&& self.current + 1 == self.frames.len()
        &&& previous < self.current
        &&& !self.frames[self.current as int].captured
    }

    /// The environment after the current scope was left for the scope at
    /// `previous`: a scope that can go is gone.
    pub open spec fn exit(self, previous: nat) -> EnvV {
        if self.disposable(previous) {
            EnvV { frames: self.frames.drop_last(), current: previous }
        } else {
            self.at(previous)
        }
    }

    /// The environment with the scope at `frame` current.
    pub open spec fn at(self, frame: nat) -> EnvV {
        EnvV { frames: self.frames, current: frame }
    }
}

/// The values of a list of scopes.
pub open spec fn frames_view(frames: Seq<Frame>) -> Seq<FrameV> {
    frames.map_values(|f: Frame| f@)
}

impl View for Env {
    type V = EnvV;

    closed spec fn view(&self) -> EnvV {
        EnvV { frames: frames_view(self.frames@), current: self.current as nat }
    }
}

impl Env {
    /// An environment with one scope, empty and without an outer scope.
    pub fn new() -> (r: Self)
        ensures
            r@.wf(),
            r@.current == 0,
            r@.frames == seq![
                FrameV {
                    store: Map::empty(),
                    constants: Set::empty(),
                    outer: None,
                    captured: false,
                },
            ],
    {
        let mut frames: Vec<Frame> = Vec::new();
        frames.push(Frame::empty(None));
        let r = Env { frames, current: 0 };
        assert(r@.frames =~= seq![
            FrameV { store: Map::empty(), constants: Set::empty(), outer: None, captured: false },
        ]);
        r
    }

    /// An environment with one scope that holds the given bindings; of two
    /// bindings of one name the later one counts.
    pub fn from(store: Vec<(String, Object)>) -> (r: Self)
        ensures
            r@.wf(),
            r@.current == 0,
            r@.frames == seq![
                FrameV {
                    store: map_of(bindings_view(store@)),
                    constants: Set::empty(),
                    outer: None,
                    captured: false,
                },
            ],
    {
        proof {
            lemma_store_of(store@);
        }
        let frame = Frame { entries: store, constants: Vec::new(), outer: None, captured: false };
        assert(names_of(frame.constants@) =~= Set::<Seq<char>>::empty());
        let mut frames: Vec<Frame> = Vec::new();
        frames.push(frame);
        let r = Env { frames, current: 0 };
        assert(r@.frames =~= seq![
            FrameV {
                store: map_of(bindings_view(store@)),
                constants: Set::empty(),
                outer: None,
                captured: false,
            },
        ]);
        r
    }

    /// The environment `outer` with one more scope, empty, inside its
    /// current one; the new scope is current.
    pub fn new_with_outer(outer: Env) -> (r: Self)
        requires
            outer@.wf(),
        ensures
            r@.wf(),
            r@ == outer@.enter(outer@.current),
    {
        let mut r = outer;
        let current = r.current;
        r.enter(current);
        r
    }

    /// The place of the current scope.
    pub fn current(&self) -> (r: usize)
        ensures
            r == self@.current,
    {
        self.current
    }

    /// The names that the current scope binds; a name may come twice.
    pub fn names(&self) -> (r: Vec<String>)
        requires
            self@.wf(),
        ensures
            forall|name: Seq<char>|
                self@.frames[self@.current as int].store.contains_key(name) <==> names_of(
                    r@,
                ).contains(name),
    {
        let frame = &self.frames[self.current];
        let mut out: Vec<String> = Vec::new();
        let mut i: usize = 0;
        while i < frame.entries.len()
            invariant
                i <= frame.entries.len(),
                out.len() == i,
                forall|j: int| 0 <= j < i ==> out[j]@ == frame.entries[j].0@,
            decreases frame.entries.len() - i,
        {
            out.push(frame.entries[i].0.clone());
            i = i + 1;
        }
        assert forall|name: Seq<char>|
            self@.frames[self@.current as int].store.contains_key(name) <==> names_of(
                out@,
            ).contains(name) by {
            lemma_store_names(frame.entries@, name);
            if names_of(out@).contains(name) {
                let i = choose|i: int| 0 <= i < out@.len() && out@[i]@ == name;
                assert(frame.entries[i].0@ == name);
            }
            if exists|i: int| 0 <= i < frame.entries.len() && frame.entries@[i].0@ == name {
                let i = choose|i: int| 0 <= i < frame.entries.len() && frame.entries@[i].0@ == name;
                assert(out@[i]@ == name);
            }
        }
        out
    }

    /// The place of the outer scope of the current scope, if it has one.
    pub fn outer(&self) -> (r: Option<usize>)
        requires
            self@.wf(),
        ensures
            match r {
                Some(o) => self@.frames[self@.current as int].outer == Some(o as nat),
                None => self@.frames[self@.current as int].outer is None,
            },
    {
        self.frames[self.current].outer
    }

    /// The number of scopes.
    pub fn len(&self) -> (r: usize)
        ensures
            r == self@.frames.len(),
    {
        self.frames.len()
    }

    /// Makes one more scope, empty, whose outer scope is the one at
    /// `outer`, and makes it current. Returns the place of the scope that
    /// was current.
    pub fn enter(&mut self, outer: usize) -> (previous: usize)
        requires
            old(self)@.wf(),
            outer < old(self)@.frames.len(),
        ensures
            final(self)@.wf(),
            final(self)@ == old(self)@.enter(outer as nat),
            previous == old(self)@.current,
    {
        let previous = self.current;
        let ghost before = self@;
        let n = self.frames.len();
        self.frames.push(Frame::empty(Some(outer)));
        self.current = n;
        assert(self@.frames =~= before.enter(outer as nat).frames);
        previous
    }

    /// Makes the scope at `frame` current.
    pub fn switch_to(&mut self, frame: usize)
        requires
            old(self)@.wf(),
            frame < old(self)@.frames.len(),
        ensures
            final(self)@.wf(),
            final(self)@ == old(self)@.at(frame as nat),
    {
        self.current = frame;
    }

    /// Marks the current scope as the scope of a closure: it stays for as
    /// long as the environment.
    pub fn capture(&mut self)
        requires
            old(self)@.wf(),
        ensures
            final(self)@.wf(),
            final(self)@ == old(self)@.capture(),
    {
        let ghost before = self@;
        self.frames[self.current].captured = true;
        assert(self@.frames =~= before.capture().frames);
    }

    /// Leaves the current scope for the scope at `previous`. The scope
    /// that is left goes where it was made last and after the one at
    /// `previous`, and no closure was made in it.
    pub fn exit(&mut self, previous: usize)
        requires
            old(self)@.wf(),
            previous < old(self)@.frames.len(),
        ensures
            final(self)@.wf(),
            final(self)@ == old(self)@.exit(previous as nat),
    {
        let ghost before = self@;
        let n = self.frames.len();
        if self.current == n - 1 && previous < self.current
            && !self.frames[self.current].captured {
            self.frames.pop();
            self.current = previous;
            assert(self@.frames =~= before.frames.drop_last());
        } else {
            self.current = previous;
        }
    }

    /// Binds `name` to `value` in the current scope, whatever the outer
    /// scopes hold and whether or not the name was bound before.
    pub fn set(&mut self, name: String, value: Object)
        requires
            old(self)@.wf(),
        ensures
            final(self)@.wf(),
            final(self)@ == old(self)@.set(name@, value@),
    {
        let ghost before = self@;
        self.frames[self.current].bind(name, value);
        assert(self@.frames =~= before.set(name@, value@).frames);
    }

    /// Assigns `value` to `name` in the nearest scope, from the current one
    /// outward, that binds the name. Fails with `ConstantForbidden` where
    /// that scope marks the name constant, and with `NoIdentifier` where no
    /// scope binds it; then nothing changes.
    #[verifier::loop_isolation(false)]
    pub fn update(&mut self, name: String, value: Object) -> (r: Info)
        requires
            old(self)@.wf(),
        ensures
            final(self)@.wf(),
            final(self)@ == old(self)@.update(name@, value@).0,
            r == old(self)@.update(name@, value@).1,
            r != Info::Succeed ==> final(self)@ == old(self)@,
            final(self)@.frames.len() == old(self)@.frames.len(),
    {
        let ghost before = self@;
        let mut f: usize = self.current;
        loop
            invariant
                self@ == before,
                before.wf(),
                f < self.frames.len(),
                before.update_from(f as nat, name@, value@) == before.update(name@, value@),
            decreases f,
        {
            match self.frames[f].find(&name) {
                Some(_) => {
                    if self.frames[f].is_marked(&name) {
                        return Info::ConstantForbidden;
                    }
                    self.frames[f].bind(name, value);
                    assert(self@.frames =~= before.update(name@, value@).0.frames);
                    return Info::Succeed;
                },
                None => {
                    match self.frames[f].outer {
                        Some(o) => {
                            assert(before.frames[f as int].outer == Some(o as nat));
                            f = o;
                        },
                        None => {
                            return Info::NoIdentifier;
                        },
                    }
                },
            }
        }
    }

    /// What `name` stands for: the value of the nearest binding, from the
    /// current scope outward; nothing where no scope binds the name.
    pub fn get(&self, name: String) -> (r: Option<Object>)
        requires
            self@.wf(),
        ensures
            match r {
                Some(o) => self@.get(name@) == Some(o@),
                None => self@.get(name@) is None,
            },
    {
        let mut f: usize = self.current;
        loop
            invariant
                self@.wf(),
                f < self.frames.len(),
                self@.lookup(f as nat, name@) == self@.get(name@),
            decreases f,
        {
            match self.frames[f].find(&name) {
                Some(i) => {
                    return Some(self.frames[f].entries[i].1.clone());
                },
                None => {
                    match self.frames[f].outer {
                        Some(o) => {
                            assert(self@.frames[f as int].outer == Some(o as nat));
                            f = o;
                        },
                        None => {
                            return None;
                        },
                    }
                },
            }
        }
    }

    /// Marks `name` constant in the current scope.
    pub fn constant(&mut self, name: String)
        requires
            old(self)@.wf(),
        ensures
            final(self)@.wf(),
            final(self)@ == old(self)@.constant(name@),
    {
        let ghost before = self@;
        self.frames[self.current].mark(name);
        assert(self@.frames =~= before.constant(name@).frames);
    }

    /// Whether `name` is marked constant in the current scope.
    pub fn is_constant(&self, name: String) -> (r: bool)
        requires
            self@.wf(),
        ensures
            r == self@.is_constant(name@),
    {
        self.frames[self.current].is_marked(&name)
    }

    /// What the current scope alone holds under `name`: a constant, a
    /// variable, or nothing. The outer scopes are not consulted.
    pub fn check_inner(&self, name: String) -> (r: CheckInnerInfo)
        requires
            self@.wf(),
        ensures
            r == self@.check_inner(name@),
    {
        match self.frames[self.current].find(&name) {
            None => CheckInnerInfo::NoIdentifier,
            Some(_) => {
                if self.frames[self.current].is_marked(&name) {
                    CheckInnerInfo::ConstantExist
                } else {
                    CheckInnerInfo::VariableExist
                }
            },
        }
    }
}

} // verus!
