//! Variable scope: a stack of frames, each a mapping from names to values.
//! The first frame is the global one; the last is the innermost.

use vstd::prelude::*;
use crate::object::{Object, ObjectView};

verus! {

/// The mathematical value of a frame: what each of its names is bound to.
pub type FrameView = Map<Seq<char>, ObjectView>;

/// The bindings that a sequence of entries holds, a later entry overriding an
/// earlier one of the same name.
pub open spec fn bindings(entries: Seq<(String, Object)>) -> FrameView
    decreases entries.len(),
{
    if entries.len() == 0 {
        Map::empty()
    } else {
        bindings(entries.drop_last()).insert(entries.last().0@, entries.last().1@)
    }
}

/// No two entries have the same name.
pub open spec fn distinct_names(entries: Seq<(String, Object)>) -> bool {
    forall|i: int, j: int|
        0 <= i < entries.len() && 0 <= j < entries.len() && i != j ==> entries[i].0@
            != entries[j].0@
}

proof fn lemma_bindings_absent(entries: Seq<(String, Object)>, name: Seq<char>)
    requires
        forall|i: int| 0 <= i < entries.len() ==> entries[i].0@ != name,
    ensures
        !bindings(entries).contains_key(name),
    decreases entries.len(),
{
    if entries.len() > 0 {
        lemma_bindings_absent(entries.drop_last(), name);
    }
}

proof fn lemma_bindings_present(entries: Seq<(String, Object)>, i: int)
    requires
        distinct_names(entries),
        0 <= i < entries.len(),
    ensures
        bindings(entries).contains_key(entries[i].0@),
        bindings(entries)[entries[i].0@] == entries[i].1@,
    decreases entries.len(),
{
    if i < entries.len() - 1 {
        lemma_bindings_present(entries.drop_last(), i);
    }
}

proof fn lemma_bindings_update(entries: Seq<(String, Object)>, i: int, entry: (String, Object))
    requires
        distinct_names(entries),
        0 <= i < entries.len(),
        entry.0@ == entries[i].0@,
    ensures
        distinct_names(entries.update(i, entry)),
        bindings(entries.update(i, entry)) == bindings(entries).insert(entry.0@, entry.1@),
    decreases entries.len(),
{
    let updated = entries.update(i, entry);
    if i == entries.len() - 1 {
        assert(updated.drop_last() =~= entries.drop_last());
        assert(bindings(updated) =~= bindings(entries).insert(entry.0@, entry.1@));
    } else {
        lemma_bindings_update(entries.drop_last(), i, entry);
        assert(updated.drop_last() =~= entries.drop_last().update(i, entry));
        assert(bindings(updated) =~= bindings(entries).insert(entry.0@, entry.1@));
    }
}

/// One frame of the scope stack.
#[derive(Debug)]
pub struct Frame {
    entries: Vec<(String, Object)>,
}

impl View for Frame {
    type V = FrameView;

    closed spec fn view(&self) -> FrameView {
        bindings(self.entries@)
    }
}

impl Frame {
    /// No name is bound twice.
    pub closed spec fn wf(&self) -> bool {
        distinct_names(self.entries@)
    }

    /// A frame without bindings.
    pub fn new() -> (frame: Frame)
        ensures
            frame.wf(),
            frame@ == Map::<Seq<char>, ObjectView>::empty(),
    {
        Frame { entries: Vec::new() }
    }

    /// The place of `name` among the entries, if it is bound.
    fn position(&self, name: &String) -> (found: Option<usize>)
        requires
            self.wf(),
        ensures
            match found {
                Some(i) => i < self.entries.len() && self.entries@[i as int].0@ == name@,
                None => forall|i: int| 0 <= i < self.entries.len() ==> self.entries@[i].0@ != name@,
            },
    {
        let mut i: usize = 0;
        while i < self.entries.len()
            invariant
                i <= self.entries.len(),
                forall|j: int| 0 <= j < i ==> self.entries@[j].0@ != name@,
            decreases self.entries.len() - i,
        {
            if self.entries[i].0 == *name {
                return Some(i);
            }
            i += 1;
        }
        None
    }

    /// The value bound to `name`, if there is one.
    pub fn get(&self, name: &String) -> (found: Option<&Object>)
        requires
            self.wf(),
        ensures
            match found {
                Some(value) => self@.contains_key(name@) && self@[name@] == value@,
                None => !self@.contains_key(name@),
            },
    {
        match self.position(name) {
            Some(i) => {
                proof {
                    lemma_bindings_present(self.entries@, i as int);
                }
                Some(&self.entries[i].1)
            },
            None => {
                proof {
                    lemma_bindings_absent(self.entries@, name@);
                }
                None
            },
        }
    }

    /// Whether `name` is bound.
    pub fn contains_key(&self, name: &String) -> (found: bool)
        requires
            self.wf(),
        ensures
            found == self@.contains_key(name@),
    {
        self.get(name).is_some()
    }

    /// Binds `name` to `value`, in place of what it was bound to.
    pub fn insert(&mut self, name: String, value: Object)
        requires
            old(self).wf(),
        ensures
            final(self).wf(),
            final(self)@ == old(self)@.insert(name@, value@),
    {
        match self.position(&name) {
            Some(i) => {
                proof {
                    lemma_bindings_update(self.entries@, i as int, (name, value));
                }
                self.entries.set(i, (name, value));
            },
            None => {
                let ghost before = self.entries@;
                self.entries.push((name, value));
                assert(self.entries@.drop_last() =~= before);
            },
        }
    }
}

/// The mathematical value of a scope stack: its frames, outermost first.
pub type ContextView = Seq<FrameView>;

/// The value that `name` has: that of its innermost binding.
pub open spec fn lookup(frames: ContextView, name: Seq<char>) -> Option<ObjectView>
    decreases frames.len(),
{
    if frames.len() == 0 {
        None
    } else if frames.last().contains_key(name) {
        Some(frames.last()[name])
    } else {
        lookup(frames.drop_last(), name)
    }
}

/// The index of the innermost frame that binds `name`.
pub open spec fn owner(frames: ContextView, name: Seq<char>) -> Option<int>
    decreases frames.len(),
{
    if frames.len() == 0 {
        None
    } else if frames.last().contains_key(name) {
        Some(frames.len() - 1)
    } else {
        owner(frames.drop_last(), name)
    }
}

/// The stack with `name` bound to `value` in frame `index`.
pub open spec fn bind_at(
    frames: ContextView,
    name: Seq<char>,
    value: ObjectView,
    index: int,
) -> ContextView
    recommends
        0 <= index < frames.len(),
{
    frames.update(index, frames[index].insert(name, value))
}

/// The stack with `name` bound to `value` in the innermost frame.
pub open spec fn declare(frames: ContextView, name: Seq<char>, value: ObjectView) -> ContextView
    recommends
        frames.len() > 0,
{
    bind_at(frames, name, value, frames.len() - 1)
}

/// The views of a sequence of frames, outermost first.
pub open spec fn frames_view(frames: Seq<Frame>) -> ContextView {
    Seq::new(frames.len(), |i: int| frames[i]@)
}

/// The scope stack.
#[derive(Debug)]
pub struct Context {
    stack: Vec<Frame>,
}

impl View for Context {
    type V = ContextView;

    closed spec fn view(&self) -> ContextView {
        frames_view(self.stack@)
    }
}

impl Context {
    /// The stack holds the global frame, and no frame binds a name twice.
    pub closed spec fn wf(&self) -> bool {
        &&& self.stack.len() >= 1
        &&& forall|i: int| 0 <= i < self.stack.len() ==> (#[trigger] self.stack@[i]).wf()
    }

    /// A well-formed stack holds at least the global frame.
    pub proof fn lemma_depth(&self)
        requires
            self.wf(),
        ensures
            self@.len() >= 1,
    {
    }

    /// A stack that holds `globals` as its only frame.
    pub fn from(globals: Frame) -> (context: Context)
        requires
            globals.wf(),
        ensures
            context.wf(),
            context@ == seq![globals@],
    {
        let mut stack: Vec<Frame> = Vec::new();
        stack.push(globals);
        let context = Context { stack: stack };
        assert(context@ =~= seq![globals@]);
        context
    }

    /// The value of `name`, searching from the innermost frame outwards.
    pub fn get(&self, k: &String) -> (found: Option<&Object>)
        requires
            self.wf(),
        ensures
            match found {
                Some(value) => lookup(self@, k@) == Some(value@),
                None => lookup(self@, k@) is None,
            },
    {
        let mut i: usize = self.stack.len();
        assert(self@.subrange(0, i as int) =~= self@);
        while i > 0
            invariant
                i <= self.stack.len(),
                self.wf(),
                lookup(self@, k@) == lookup(self@.subrange(0, i as int), k@),
            decreases i,
        {
            i -= 1;
            proof {
                let upto = self@.subrange(0, i + 1);
                assert(upto.last() == self.stack@[i as int]@);
                assert(upto.drop_last() =~= self@.subrange(0, i as int));
            }
            match self.stack[i].get(k) {
                Some(value) => {
                    return Some(value);
                },
                None => {},
            }
        }
        None
    }

    /// The index of the innermost frame that binds `name`.
    pub fn contains(&self, k: &String) -> (found: Option<usize>)
        requires
            self.wf(),
        ensures
            match found {
                Some(index) => owner(self@, k@) == Some(index as int) && index < self@.len(),
                None => owner(self@, k@) is None,
            },
    {
        let mut i: usize = self.stack.len();
        assert(self@.subrange(0, i as int) =~= self@);
        while i > 0
            invariant
                i <= self.stack.len(),
                self.wf(),
                owner(self@, k@) == owner(self@.subrange(0, i as int), k@),
            decreases i,
        {
            i -= 1;
            proof {
                let upto = self@.subrange(0, i + 1);
                assert(upto.last() == self.stack@[i as int]@);
                assert(upto.drop_last() =~= self@.subrange(0, i as int));
            }
            if self.stack[i].contains_key(k) {
                return Some(i);
            }
        }
        None
    }

    /// Binds `k` to `v` in the frame at `scope_index`.
    pub fn insert_at(&mut self, k: String, v: Object, scope_index: usize)
        requires
            old(self).wf(),
            scope_index < old(self)@.len(),
        ensures
            final(self).wf(),
            final(self)@ == bind_at(old(self)@, k@, v@, scope_index as int),
            final(self)@.len() == old(self)@.len(),
    {
        let ghost before = self.stack@;
        self.stack[scope_index].insert(k, v);
        proof {
            assert(self@ =~= bind_at(frames_view(before), k@, v@, scope_index as int));
        }
    }

    /// Declares `k` in the innermost frame, bound to `v`.
    pub fn insert(&mut self, k: String, v: Object)
        requires
            old(self).wf(),
        ensures
            final(self).wf(),
            final(self)@ == declare(old(self)@, k@, v@),
            final(self)@.len() == old(self)@.len(),
    {
        let len = self.stack.len();
        self.insert_at(k, v, len - 1);
    }

    /// Pushes an empty frame.
    pub fn enter_scope(&mut self)
        requires
            old(self).wf(),
        ensures
            final(self).wf(),
            final(self)@ == old(self)@.push(Map::<Seq<char>, ObjectView>::empty()),
    {
        self.stack.push(Frame::new());
        assert(self@ =~= old(self)@.push(Map::<Seq<char>, ObjectView>::empty()));
    }

    /// Pops the innermost frame, which must not be the global one.
    pub fn exit_scope(&mut self)
        requires
            old(self).wf(),
            old(self)@.len() > 1,
        ensures
            final(self).wf(),
            final(self)@ == old(self)@.drop_last(),
    {
        self.stack.pop();
        assert(self@ =~= old(self)@.drop_last());
    }
}

} // verus!
