use vstd::prelude::*;

verus! {

/// The type of a column, or of a command argument.
#[derive(Debug, Clone, Copy, PartialEq, Eq, Structural)]
pub enum ValueType {
    Any,
    Integer,
    Bool,
    Text,
    Field,
    Command,
}

/// A declared argument of a command: what completion offers.
#[derive(Debug)]
pub struct ArgumentDescription {
    pub name: String,
    pub value_type: ValueType,
}

/// The signature of a command value: its name and its declared arguments.
#[derive(Debug)]
pub struct CommandSignature {
    pub name: String,
    pub arguments: Vec<ArgumentDescription>,
}

/// One value held in a row or in a scope binding.
#[derive(Debug)]
pub enum Cell {
    Integer(i64),
    Bool(bool),
    Text(String),
    Field(String),
    Command(CommandSignature),
}

/// One (name, type) pair of a stream's schema.
#[derive(Debug)]
pub struct ColumnType {
    pub name: String,
    pub cell_type: ValueType,
}

/// One record flowing through a stream.
#[derive(Debug)]
pub struct Row {
    pub cells: Vec<Cell>,
}

/// One call-site argument: an optional name and a value.
#[derive(Debug)]
pub struct Argument {
    pub name: Option<String>,
    pub cell: Cell,
}

impl ArgumentDescription {
    pub fn copy(&self) -> (r: ArgumentDescription)
        ensures
            r == *self,
    {
        ArgumentDescription { name: self.name.clone(), value_type: self.value_type }
    }
}

impl CommandSignature {
    pub fn copy(&self) -> (r: CommandSignature)
        ensures
            r.name == self.name,
            r.arguments@ == self.arguments@,
    {
        let mut arguments: Vec<ArgumentDescription> = Vec::new();
        let mut i: usize = 0;
        while i < self.arguments.len()
            invariant
                i <= self.arguments@.len(),
                arguments@ == self.arguments@.subrange(0, i as int),
            decreases self.arguments@.len() - i,
        {
            arguments.push(self.arguments[i].copy());
            i = i + 1;
            assert(arguments@ =~= self.arguments@.subrange(0, i as int));
        }
        assert(arguments@ =~= self.arguments@);
        CommandSignature { name: self.name.clone(), arguments }
    }
}

/// Two cells are equal values: same kind and same payload.
pub open spec fn same_cell(a: Cell, b: Cell) -> bool {
    match (a, b) {
        (Cell::Command(x), Cell::Command(y)) => x.name == y.name && x.arguments@ == y.arguments@,
        _ => a == b,
    }
}

impl Cell {
    pub fn copy(&self) -> (r: Cell)
        ensures
            same_cell(r, *self),
    {
        match self {
            Cell::Integer(i) => Cell::Integer(*i),
            Cell::Bool(b) => Cell::Bool(*b),
            Cell::Text(s) => Cell::Text(s.clone()),
            Cell::Field(s) => Cell::Field(s.clone()),
            Cell::Command(c) => Cell::Command(c.copy()),
        }
    }
}

} // verus!
