use vstd::prelude::*;
use crate::data::{Argument, Cell, ColumnType, Row, same_cell};
use crate::env::{Binding, Scope, lookup_frames};
use crate::errors::{JobError, JobResult};
use crate::sort::{key_word, sort_key, sort_outcome};
use crate::stream::{InputStream, OutputStream};

verus! {

/// The value of a compiled argument: a literal, or a variable read from the scope
/// when the stage starts.
#[derive(Debug)]
pub enum ValueDefinition {
    Literal(Cell),
    Variable(String),
}

/// One compiled argument of a stage.
#[derive(Debug)]
pub struct ArgumentDefinition {
    pub name: Option<String>,
    pub value: ValueDefinition,
}

/// The builtin command a stage runs.
#[derive(Debug, Clone, Copy, PartialEq, Eq, Structural)]
pub enum Command {
    Sort,
}

/// A compiled single-stage program: a command and its arguments.
#[derive(Debug)]
pub struct JobDefinition {
    pub command: Command,
    pub arguments: Vec<ArgumentDefinition>,
}

/// Two argument values are the same literal, or read the same variable.
pub open spec fn same_value(a: ValueDefinition, b: ValueDefinition) -> bool {
    match (a, b) {
        (ValueDefinition::Literal(x), ValueDefinition::Literal(y)) => same_cell(x, y),
        (ValueDefinition::Variable(x), ValueDefinition::Variable(y)) => x == y,
        _ => false,
    }
}

/// Two stages run the same command with the same arguments.
pub open spec fn same_job(a: JobDefinition, b: JobDefinition) -> bool {
    &&& a.command == b.command
    &&& a.arguments@.len() == b.arguments@.len()
    &&& forall|i: int|
        0 <= i < a.arguments@.len() ==> (#[trigger] a.arguments@[i]).name == b.arguments@[i].name
            && same_value(a.arguments@[i].value, b.arguments@[i].value)
}

impl ValueDefinition {
    pub fn copy(&self) -> (r: ValueDefinition)
        ensures
            same_value(r, *self),
    {
        match self {
            ValueDefinition::Literal(c) => ValueDefinition::Literal(c.copy()),
            ValueDefinition::Variable(n) => ValueDefinition::Variable(n.clone()),
        }
    }
}

impl JobDefinition {
    pub fn copy(&self) -> (r: JobDefinition)
        ensures
            same_job(r, *self),
    {
        let mut arguments: Vec<ArgumentDefinition> = Vec::new();
        let mut i: usize = 0;
        while i < self.arguments.len()
            invariant
                i <= self.arguments@.len(),
                arguments@.len() == i,
                forall|k: int|
                    0 <= k < i ==> (#[trigger] arguments@[k]).name == self.arguments@[k].name && same_value(
                        arguments@[k].value,
                        self.arguments@[k].value,
                    ),
            decreases self.arguments@.len() - i,
        {
            let a = &self.arguments[i];
            let name = match &a.name {
                Some(n) => Some(n.clone()),
                None => None,
            };
            arguments.push(ArgumentDefinition { name, value: a.value.copy() });
            i = i + 1;
        }
        JobDefinition { command: self.command, arguments }
    }
}

/// The value an argument has in a scope.
pub open spec fn resolve(v: ValueDefinition, env: Seq<Seq<Binding>>) -> Option<Cell> {
    match v {
        ValueDefinition::Literal(c) => Some(c),
        ValueDefinition::Variable(n) => lookup_frames(env, n@),
    }
}

/// Every variable the arguments read is bound in the scope.
pub open spec fn all_resolved(defs: Seq<ArgumentDefinition>, env: Seq<Seq<Binding>>) -> bool {
    forall|i: int| 0 <= i < defs.len() ==> (#[trigger] resolve(defs[i].value, env)) is Some
}

/// The sort key that the arguments give in a scope (see `sort_key`).
pub open spec fn resolved_key(defs: Seq<ArgumentDefinition>, env: Seq<Seq<Binding>>) -> Option<Seq<char>> {
    if defs.len() == 1 && defs[0].name is Some && defs[0].name.unwrap()@ == key_word() {
        match resolve(defs[0].value, env) {
            Some(Cell::Text(s)) => Some(s@),
            Some(Cell::Field(s)) => Some(s@),
            _ => None,
        }
    } else {
        None
    }
}

/// What running the stage `def` in scope `env` does, with an input of schema `s` holding
/// `rows` and an output that expects `expected` and holds `before`, then `after`.
pub open spec fn stage_outcome(
    def: JobDefinition,
    env: Seq<Seq<Binding>>,
    s: Seq<ColumnType>,
    rows: Seq<Row>,
    expected: Option<Seq<ColumnType>>,
    before: Seq<Row>,
    connected: bool,
    r: JobResult<()>,
    after: Seq<Row>,
) -> bool {
    if !all_resolved(def.arguments@, env) {
        r == Err::<(), JobError>(JobError::UnknownVariable) && after == before
    } else {
        match def.command {
            Command::Sort => sort_outcome(
                resolved_key(def.arguments@, env),
                s,
                rows,
                expected,
                before,
                connected,
                r,
                after,
            ),
        }
    }
}

fn compile_arguments(defs: &Vec<ArgumentDefinition>, scope: &Scope) -> (r: JobResult<Vec<Argument>>)
    ensures
        r is Err <==> !all_resolved(defs@, scope@),
        r is Err ==> r == Err::<Vec<Argument>, JobError>(JobError::UnknownVariable),
        r is Ok ==> {
            let args = r.unwrap()@;
            &&& args.len() == defs@.len()
            &&& forall|i: int|
                0 <= i < args.len() ==> (#[trigger] args[i]).name == defs@[i].name && same_cell(
                    args[i].cell,
                    resolve(defs@[i].value, scope@).unwrap(),
                )
        },
{
    let mut args: Vec<Argument> = Vec::new();
    let mut i: usize = 0;
    while i < defs.len()
        invariant
            i <= defs@.len(),
            args@.len() == i,
            forall|k: int| 0 <= k < i ==> (#[trigger] resolve(defs@[k].value, scope@)) is Some,
            forall|k: int|
                0 <= k < i ==> (#[trigger] args@[k]).name == defs@[k].name && same_cell(
                    args@[k].cell,
                    resolve(defs@[k].value, scope@).unwrap(),
                ),
        decreases defs@.len() - i,
    {
        let d = &defs[i];
        let cell = match &d.value {
            ValueDefinition::Literal(c) => c.copy(),
            ValueDefinition::Variable(n) => match scope.lookup(n.as_str()) {
                Some(c) => c.copy(),
                None => {
                    assert(resolve(defs@[i as int].value, scope@) is None);
                    return Err(JobError::UnknownVariable);
                },
            },
        };
        let name = match &d.name {
            Some(n) => Some(n.clone()),
            None => None,
        };
        args.push(Argument { name, cell });
        i = i + 1;
    }
    Ok(args)
}

impl JobDefinition {
    /// Runs the stage in `scope`, reading `input` and writing `output`, and returns its
    /// result.
    pub fn spawn_and_execute(&self, scope: &Scope, input: InputStream, output: &mut OutputStream) -> (r:
        JobResult<()>)
        requires
            input.wf(),
        ensures
            final(output).spec_declared() == old(output).spec_declared(),
            final(output).spec_connected() == old(output).spec_connected(),
            stage_outcome(
                *self,
                scope@,
                input.spec_schema(),
                input.spec_rows(),
                old(output).expected(),
                old(output).spec_rows(),
                old(output).spec_connected(),
                r,
                final(output).spec_rows(),
            ),
    {
        let args = compile_arguments(&self.arguments, scope)?;
        proof {
            let defs = self.arguments@;
            if args@.len() == 1 {
                assert(same_cell(args@[0].cell, resolve(defs[0].value, scope@).unwrap()));
            }
            assert(sort_key(args@) == resolved_key(defs, scope@));
        }
        match self.command {
            Command::Sort => crate::sort::compile_and_run(args, input, output),
        }
    }
}

} // verus!
