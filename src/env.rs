use vstd::prelude::*;
use crate::data::{Cell, same_cell};

verus! {

/// One name bound to a value in a frame.
#[derive(Debug)]
pub struct Binding {
    pub name: String,
    pub value: Cell,
}

/// A lexical scope: a chain of frames, the innermost last.
///
/// A frame only ever gains bindings; a child frame is pushed per closure
/// invocation and never alters the frames below it.
#[derive(Debug)]
pub struct Env {
    pub frames: Vec<Vec<Binding>>,
}

/// The value that `name` has in one frame: its latest binding there.
pub open spec fn lookup_frame(frame: Seq<Binding>, name: Seq<char>) -> Option<Cell>
    decreases frame.len(),
{
    if frame.len() == 0 {
        None
    } else if frame.last().name@ == name {
        Some(frame.last().value)
    } else {
        lookup_frame(frame.drop_last(), name)
    }
}

/// The value that `name` has in a chain of frames: the innermost frame that binds it wins.
pub open spec fn lookup_frames(frames: Seq<Seq<Binding>>, name: Seq<char>) -> Option<Cell>
    decreases frames.len(),
{
    if frames.len() == 0 {
        None
    } else {
        match lookup_frame(frames.last(), name) {
            Some(v) => Some(v),
            None => lookup_frames(frames.drop_last(), name),
        }
    }
}

impl View for Env {
    type V = Seq<Seq<Binding>>;

    open spec fn view(&self) -> Seq<Seq<Binding>> {
        self.frames@.map_values(|f: Vec<Binding>| f@)
    }
}

impl Binding {
    pub fn copy(&self) -> (r: Binding)
        ensures
            r.name == self.name,
            same_cell(r.value, self.value),
    {
        Binding { name: self.name.clone(), value: self.value.copy() }
    }
}

/// Two frames hold the same bindings in the same order.
pub open spec fn same_frame(a: Seq<Binding>, b: Seq<Binding>) -> bool {
    a.len() == b.len() && forall|i: int|
        0 <= i < a.len() ==> a[i].name == b[i].name && same_cell(#[trigger] a[i].value, b[i].value)
}

/// Two chains of frames hold the same bindings.
pub open spec fn same_frames(a: Seq<Seq<Binding>>, b: Seq<Seq<Binding>>) -> bool {
    a.len() == b.len() && forall|i: int| 0 <= i < a.len() ==> same_frame(#[trigger] a[i], b[i])
}

fn copy_frame(f: &Vec<Binding>) -> (r: Vec<Binding>)
    ensures
        same_frame(r@, f@),
{
    let mut r: Vec<Binding> = Vec::new();
    let mut i: usize = 0;
    while i < f.len()
        invariant
            i <= f@.len(),
            same_frame(r@, f@.subrange(0, i as int)),
        decreases f@.len() - i,
    {
        r.push(f[i].copy());
        i = i + 1;
    }
    assert(f@.subrange(0, f@.len() as int) =~= f@);
    r
}

impl Env {
    /// A scope of one empty frame.
    pub fn new() -> (r: Env)
        ensures
            r@ == seq![Seq::<Binding>::empty()],
    {
        let mut frames: Vec<Vec<Binding>> = Vec::new();
        frames.push(Vec::new());
        let r = Env { frames };
        assert(r@ =~= seq![Seq::<Binding>::empty()]);
        r
    }

    /// A copy of this chain of frames.
    pub fn copy(&self) -> (r: Env)
        ensures
            same_frames(r@, self@),
    {
        let mut frames: Vec<Vec<Binding>> = Vec::new();
        let mut i: usize = 0;
        while i < self.frames.len()
            invariant
                i <= self.frames@.len(),
                frames@.len() == i,
                forall|j: int| 0 <= j < i ==> same_frame(#[trigger] frames@[j]@, self.frames@[j]@),
            decreases self.frames@.len() - i,
        {
            frames.push(copy_frame(&self.frames[i]));
            i = i + 1;
        }
        Env { frames }
    }

    /// A child scope: a fresh, empty frame over this chain, which it leaves untouched.
    pub fn new_stack_frame(&self) -> (r: Scope<'_>)
        ensures
            r.parent == self,
            r.frame@.len() == 0,
            r@ == self@.push(Seq::<Binding>::empty()),
    {
        let r = Scope { parent: self, frame: Vec::new() };
        assert(r.frame@ =~= Seq::<Binding>::empty());
        r
    }

    /// Binds `name` to `value` in the innermost frame.
    pub fn declare(&mut self, name: String, value: Cell)
        requires
            old(self)@.len() > 0,
        ensures
            final(self)@.len() == old(self)@.len(),
            final(self)@.drop_last() == old(self)@.drop_last(),
            final(self)@.last() == old(self)@.last().push(Binding { name, value }),
    {
        let last = self.frames.len() - 1;
        let mut frame = self.frames.remove(last);
        frame.push(Binding { name, value });
        self.frames.push(frame);
        assert(self@.drop_last() =~= old(self)@.drop_last());
    }

    /// The value bound to `name`, searching from the innermost frame outwards.
    pub fn lookup(&self, name: &str) -> (r: Option<&Cell>)
        ensures
            r is Some <==> lookup_frames(self@, name@) is Some,
            r is Some ==> lookup_frames(self@, name@) == Some(*r.unwrap()),
    {
        let key = name.to_owned();
        let mut i: usize = self.frames.len();
        assert(self@.subrange(0, i as int) =~= self@);
        while i > 0
            invariant
                i <= self.frames@.len(),
                key@ == name@,
                lookup_frames(self@, name@) == lookup_frames(self@.subrange(0, i as int), name@),
            decreases i,
        {
            let frame = &self.frames[i - 1];
            let mut j: usize = frame.len();
            assert(frame@.subrange(0, j as int) =~= frame@);
            assert(self@.subrange(0, i as int).last() == frame@);
            while j > 0
                invariant
                    j <= frame@.len(),
                    0 < i <= self.frames@.len(),
                    frame@ == self.frames@[i - 1]@,
                    key@ == name@,
                    lookup_frames(self@, name@) == lookup_frames(self@.subrange(0, i as int), name@),
                    lookup_frame(frame@, name@) == lookup_frame(frame@.subrange(0, j as int), name@),
                decreases j,
            {
                if frame[j - 1].name == key {
                    proof {
                        let f = frame@.subrange(0, j as int);
                        assert(f.last() == frame@[j - 1]);
                        assert(lookup_frame(f, name@) == Some(frame@[j - 1].value));
                        assert(self@.subrange(0, i as int).last() == frame@);
                    }
                    return Some(&frame[j - 1].value);
                }
                assert(frame@.subrange(0, j as int).drop_last() =~= frame@.subrange(0, j - 1));
                j = j - 1;
            }
            assert(self@.subrange(0, i as int).last() == frame@);
            assert(self@.subrange(0, i as int).drop_last() =~= self@.subrange(0, i - 1));
            i = i - 1;
        }
        None
    }
}

/// The scope of one invocation: a private frame over a chain that it only reads.
#[derive(Debug)]
pub struct Scope<'a> {
    pub parent: &'a Env,
    pub frame: Vec<Binding>,
}

impl<'a> View for Scope<'a> {
    type V = Seq<Seq<Binding>>;

    open spec fn view(&self) -> Seq<Seq<Binding>> {
        self.parent@.push(self.frame@)
    }
}

impl<'a> Scope<'a> {
    /// Binds `name` to `value` in the private frame.
    pub fn declare(&mut self, name: String, value: Cell)
        ensures
            final(self).parent == old(self).parent,
            final(self).frame@ == old(self).frame@.push(Binding { name, value }),
    {
        self.frame.push(Binding { name, value });
    }

    /// The value bound to `name`: the private frame first, then the chain below it.
    pub fn lookup(&self, name: &str) -> (r: Option<&Cell>)
        ensures
            r is Some <==> lookup_frames(self@, name@) is Some,
            r is Some ==> lookup_frames(self@, name@) == Some(*r.unwrap()),
    {
        let key = name.to_owned();
        let frame = &self.frame;
        let mut j: usize = frame.len();
        assert(frame@.subrange(0, j as int) =~= frame@);
        assert(self@.last() == frame@);
        assert(self@.drop_last() =~= self.parent@);
        while j > 0
            invariant
                j <= frame@.len(),
                key@ == name@,
                frame == &self.frame,
                lookup_frame(frame@, name@) == lookup_frame(frame@.subrange(0, j as int), name@),
            decreases j,
        {
            if frame[j - 1].name == key {
                proof {
                    let f = frame@.subrange(0, j as int);
                    assert(f.last() == frame@[j - 1]);
                    assert(lookup_frame(f, name@) == Some(frame@[j - 1].value));
                    assert(self@.last() == frame@);
                }
                return Some(&frame[j - 1].value);
            }
            assert(frame@.subrange(0, j as int).drop_last() =~= frame@.subrange(0, j - 1));
            j = j - 1;
        }
        assert(frame@.subrange(0, 0) =~= Seq::<Binding>::empty());
        self.parent.lookup(name)
    }
}

} // verus!
