use vstd::prelude::*;

verus! {

/// A span of a command line, in characters; both ends count as inside.
#[derive(Debug, Clone, Copy, PartialEq, Eq, Structural)]
pub struct Location {
    pub start: usize,
    pub end: usize,
}

impl Location {
    pub open spec fn spec_contains(self, cursor: int) -> bool {
        self.start <= cursor <= self.end
    }

    pub open spec fn spec_union(self, other: Location) -> Location {
        Location {
            start: if self.start <= other.start { self.start } else { other.start },
            end: if self.end >= other.end { self.end } else { other.end },
        }
    }

    pub fn new(start: usize, end: usize) -> (r: Location)
        ensures
            r.start == start,
            r.end == end,
    {
        Location { start, end }
    }

    pub fn contains(&self, cursor: usize) -> (r: bool)
        ensures
            r == self.spec_contains(cursor as int),
    {
        self.start <= cursor && cursor <= self.end
    }

    pub fn union(&self, other: Location) -> (r: Location)
        ensures
            r == self.spec_union(other),
    {
        Location {
            start: if self.start <= other.start { self.start } else { other.start },
            end: if self.end >= other.end { self.end } else { other.end },
        }
    }
}

/// A word of the command line and where it stands.
#[derive(Debug)]
pub struct TrackedString {
    pub string: String,
    pub location: Location,
}

/// An expression of the parsed command language.
#[derive(Debug)]
pub enum Node {
    Label(TrackedString),
    Field(TrackedString),
    String(TrackedString),
    Integer(TrackedString),
    File(TrackedString),
    GetAttr(Box<Node>, TrackedString),
    Path(Box<Node>, TrackedString),
    GetItem(Box<Node>, Box<Node>),
    Assignment(Box<Node>, String, Box<Node>),
    Substitution(JobNode),
    Closure(JobListNode),
}

/// One command: its expressions, the first naming what is called.
#[derive(Debug)]
pub struct CommandNode {
    pub expressions: Vec<Node>,
    pub location: Location,
}

/// One pipeline of commands.
#[derive(Debug)]
pub struct JobNode {
    pub commands: Vec<CommandNode>,
    pub location: Location,
}

/// A sequence of pipelines.
#[derive(Debug)]
pub struct JobListNode {
    pub jobs: Vec<JobNode>,
    pub location: Location,
}

impl Node {
    /// The span an expression covers.
    pub open spec fn spec_location(self) -> Location
        decreases self,
    {
        match self {
            Node::Label(s) => s.location,
            Node::Field(s) => s.location,
            Node::String(s) => s.location,
            Node::Integer(s) => s.location,
            Node::File(s) => s.location,
            Node::GetAttr(p, a) => p.spec_location().spec_union(a.location),
            Node::Path(p, a) => p.spec_location().spec_union(a.location),
            Node::GetItem(a, b) => a.spec_location().spec_union(b.spec_location()),
            Node::Assignment(a, _, b) => a.spec_location().spec_union(b.spec_location()),
            Node::Substitution(j) => j.location,
            Node::Closure(l) => l.location,
        }
    }

    pub fn location(&self) -> (r: Location)
        ensures
            r == self.spec_location(),
        decreases self,
    {
        match self {
            Node::Label(s) => s.location,
            Node::Field(s) => s.location,
            Node::String(s) => s.location,
            Node::Integer(s) => s.location,
            Node::File(s) => s.location,
            Node::GetAttr(p, a) => p.location().union(a.location),
            Node::Path(p, a) => p.location().union(a.location),
            Node::GetItem(a, b) => a.location().union(b.location()),
            Node::Assignment(a, _, b) => a.location().union(b.location()),
            Node::Substitution(j) => j.location,
            Node::Closure(l) => l.location,
        }
    }
}

} // verus!
