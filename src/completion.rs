use vstd::prelude::*;
use crate::ast::{CommandNode, JobListNode, JobNode, Location, Node, TrackedString};
use crate::data::{ArgumentDescription, Cell, CommandSignature, ValueType};
use crate::env::{lookup_frames, Env};
use vstd::string::StrSliceExecFns;

verus! {

/// Why a command line offers nothing to complete.
#[derive(Debug, Clone, Copy, PartialEq, Eq, Structural)]
pub enum CompletionError {
    NothingToComplete,
    InvalidPath,
    CannotExtractCommand,
    CannotExtractArgument,
    InvalidArgumentName,
    Unsupported,
}

/// The command under the cursor inside an expression: `Some(None)` where the
/// expression holds no nested command there, `None` where a nested pipeline is empty.
pub open spec fn find_in_expression(e: Node, cursor: int) -> Option<Option<CommandNode>>
    decreases e, 0int,
{
    match e {
        Node::Assignment(_, _, b) => find_in_expression(*b, cursor),
        Node::Substitution(j) => {
            if j.location.spec_contains(cursor) {
                match find_in_job(j, 0, cursor) {
                    Some(c) => Some(Some(c)),
                    None => None,
                }
            } else {
                Some(None)
            }
        },
        Node::Closure(l) => {
            if l.location.spec_contains(cursor) {
                match find_in_job_list(l, 0, cursor) {
                    Some(c) => Some(Some(c)),
                    None => None,
                }
            } else {
                Some(None)
            }
        },
        _ => Some(None),
    }
}

/// The command under the cursor, looking through the expressions of `c` from index `i`:
/// the first nested command that an expression yields, else `c` itself.
pub open spec fn find_in_command(c: CommandNode, i: int, cursor: int) -> Option<CommandNode>
    decreases c, c.expressions.len() - i,
{
    if 0 <= i < c.expressions.len() {
        match find_in_expression(c.expressions[i], cursor) {
            None => None,
            Some(Some(r)) => Some(r),
            Some(None) => find_in_command(c, i + 1, cursor),
        }
    } else {
        Some(c)
    }
}

/// The command under the cursor in a pipeline, looking from command `i`: inside the
/// first command whose span holds the cursor, else the last command.
pub open spec fn find_in_job(j: JobNode, i: int, cursor: int) -> Option<CommandNode>
    decreases j, j.commands.len() - i,
{
    if 0 <= i < j.commands.len() {
        if j.commands[i].location.spec_contains(cursor) {
            find_in_command(j.commands[i], 0, cursor)
        } else {
            find_in_job(j, i + 1, cursor)
        }
    } else if j.commands.len() > 0 {
        Some(j.commands@.last())
    } else {
        None
    }
}

/// The command under the cursor in a job list, looking from job `i`: inside the first
/// job whose span holds the cursor, else the last command of the last job.
pub open spec fn find_in_job_list(l: JobListNode, i: int, cursor: int) -> Option<CommandNode>
    decreases l, l.jobs.len() - i,
{
    if 0 <= i < l.jobs.len() {
        if l.jobs[i].location.spec_contains(cursor) {
            find_in_job(l.jobs[i], 0, cursor)
        } else {
            find_in_job_list(l, i + 1, cursor)
        }
    } else if l.jobs.len() > 0 && l.jobs@.last().commands.len() > 0 {
        Some(l.jobs@.last().commands@.last())
    } else {
        None
    }
}

fn find_command_in_expression(exp: &Node, cursor: usize) -> (r: Result<
    Option<&CommandNode>,
    CompletionError,
>)
    ensures
        match find_in_expression(*exp, cursor as int) {
            None => r == Err::<Option<&CommandNode>, CompletionError>(CompletionError::NothingToComplete),
            Some(None) => r matches Ok(None),
            Some(Some(c)) => r matches Ok(Some(x)) && *x == c,
        },
    decreases exp, 0int,
{
    match exp {
        Node::Assignment(_, _, b) => find_command_in_expression(b, cursor),
        Node::Substitution(j) => {
            if j.location.contains(cursor) {
                let c = find_command_in_job(j, cursor)?;
                Ok(Some(c))
            } else {
                Ok(None)
            }
        },
        Node::Closure(l) => {
            if l.location.contains(cursor) {
                let c = find_command_in_job_list(l, cursor)?;
                Ok(Some(c))
            } else {
                Ok(None)
            }
        },
        _ => Ok(None),
    }
}

fn find_command_in_command(ast: &CommandNode, cursor: usize) -> (r: Result<
    &CommandNode,
    CompletionError,
>)
    ensures
        match find_in_command(*ast, 0, cursor as int) {
            None => r == Err::<&CommandNode, CompletionError>(CompletionError::NothingToComplete),
            Some(c) => r matches Ok(x) && *x == c,
        },
    decreases ast, 0int,
{
    let mut i: usize = 0;
    while i < ast.expressions.len()
        invariant
            i <= ast.expressions@.len(),
            find_in_command(*ast, 0, cursor as int) == find_in_command(*ast, i as int, cursor as int),
        decreases ast.expressions@.len() - i,
    {
        assert(decreases_to!(*ast => ast.expressions[i as int]));
        if let Some(res) = find_command_in_expression(&ast.expressions[i], cursor)? {
            return Ok(res);
        }
        i = i + 1;
    }
    Ok(ast)
}

fn find_command_in_job(job: &JobNode, cursor: usize) -> (r: Result<&CommandNode, CompletionError>)
    ensures
        match find_in_job(*job, 0, cursor as int) {
            None => r == Err::<&CommandNode, CompletionError>(CompletionError::NothingToComplete),
            Some(c) => r matches Ok(x) && *x == c,
        },
    decreases job, 0int,
{
    let mut i: usize = 0;
    while i < job.commands.len()
        invariant
            i <= job.commands@.len(),
            find_in_job(*job, 0, cursor as int) == find_in_job(*job, i as int, cursor as int),
        decreases job.commands@.len() - i,
    {
        if job.commands[i].location.contains(cursor) {
            assert(decreases_to!(*job => job.commands[i as int]));
            return find_command_in_command(&job.commands[i], cursor);
        }
        i = i + 1;
    }
    if job.commands.len() == 0 {
        Err(CompletionError::NothingToComplete)
    } else {
        Ok(&job.commands[job.commands.len() - 1])
    }
}

/// The innermost command that holds the cursor: the one a completion applies to.
pub fn find_command_in_job_list(ast: &JobListNode, cursor: usize) -> (r: Result<
    &CommandNode,
    CompletionError,
>)
    ensures
        match find_in_job_list(*ast, 0, cursor as int) {
            None => r == Err::<&CommandNode, CompletionError>(CompletionError::NothingToComplete),
            Some(c) => r matches Ok(x) && *x == c,
        },
    decreases ast, 0int,
{
    let mut i: usize = 0;
    while i < ast.jobs.len()
        invariant
            i <= ast.jobs@.len(),
            find_in_job_list(*ast, 0, cursor as int) == find_in_job_list(*ast, i as int, cursor as int),
        decreases ast.jobs@.len() - i,
    {
        if ast.jobs[i].location.contains(cursor) {
            assert(decreases_to!(*ast => ast.jobs[i as int]));
            return find_command_in_job(&ast.jobs[i], cursor);
        }
        i = i + 1;
    }
    if ast.jobs.len() == 0 {
        return Err(CompletionError::NothingToComplete);
    }
    let last = &ast.jobs[ast.jobs.len() - 1];
    if last.commands.len() == 0 {
        Err(CompletionError::NothingToComplete)
    } else {
        Ok(&last.commands[last.commands.len() - 1])
    }
}

/// What completion knows of the command being called.
#[derive(Debug)]
pub enum CompletionCommand {
    Unknown,
    Known(CommandSignature),
}

impl CompletionCommand {
    /// A copy that describes the same command.
    pub fn copy(&self) -> (r: CompletionCommand)
        ensures
            match (r, *self) {
                (CompletionCommand::Unknown, CompletionCommand::Unknown) => true,
                (CompletionCommand::Known(a), CompletionCommand::Known(b)) => a.name == b.name
                    && a.arguments@ == b.arguments@,
                _ => false,
            },
    {
        match self {
            CompletionCommand::Unknown => CompletionCommand::Unknown,
            CompletionCommand::Known(c) => CompletionCommand::Known(c.copy()),
        }
    }
}

/// What kind of argument the cursor is in.
#[derive(Debug)]
pub enum LastArgument {
    Unknown,
    Field(Vec<String>),
    Path(Vec<String>),
    QuotedString(String),
    Switch(String),
}

/// A command whose arguments are being written.
#[derive(Debug)]
pub struct PartialCommandResult {
    pub command: CompletionCommand,
    pub previous_arguments: Vec<(Option<String>, ValueType)>,
    pub last_argument_name: Option<String>,
    pub last_argument: LastArgument,
}

/// What the cursor stands in.
#[derive(Debug)]
pub enum ParseResult {
    Nothing,
    PartialCommand(Vec<String>),
    PartialPath(Vec<String>),
    PartialArgument(PartialCommandResult),
}

/// A `LastArgument` as plain values.
pub enum LastArgumentView {
    Unknown,
    Field(Seq<Seq<char>>),
    Path(Seq<Seq<char>>),
    QuotedString(Seq<char>),
    Switch(Seq<char>),
}

impl View for LastArgument {
    type V = LastArgumentView;

    open spec fn view(&self) -> LastArgumentView {
        match self {
            LastArgument::Unknown => LastArgumentView::Unknown,
            LastArgument::Field(f) => LastArgumentView::Field(strings_view(f@)),
            LastArgument::Path(f) => LastArgumentView::Path(strings_view(f@)),
            LastArgument::QuotedString(s) => LastArgumentView::QuotedString(s@),
            LastArgument::Switch(s) => LastArgumentView::Switch(s@),
        }
    }
}

pub open spec fn strings_view(v: Seq<String>) -> Seq<Seq<char>> {
    v.map_values(|s: String| s@)
}

/// The type declared for the first argument of `args` called `name`, or `Any`.
pub open spec fn declared_type(args: Seq<ArgumentDescription>, name: Seq<char>) -> ValueType
    decreases args.len(),
{
    if args.len() == 0 {
        ValueType::Any
    } else if args[0].name@ == name {
        args[0].value_type
    } else {
        declared_type(args.drop_first(), name)
    }
}

impl PartialCommandResult {
    /// The declared type of the argument being written, where the command is known and
    /// the argument is named; `Any` otherwise.
    pub fn last_argument_type(&self) -> (r: ValueType)
        ensures
            r == match (self.command, self.last_argument_name) {
                (CompletionCommand::Known(cmd), Some(name)) => declared_type(cmd.arguments@, name@),
                _ => ValueType::Any,
            },
    {
        match (&self.command, &self.last_argument_name) {
            (CompletionCommand::Known(cmd), Some(name)) => {
                let mut i: usize = 0;
                assert(cmd.arguments@.skip(0) =~= cmd.arguments@);
                while i < cmd.arguments.len()
                    invariant
                        i <= cmd.arguments@.len(),
                        self.command == CompletionCommand::Known(*cmd),
                        self.last_argument_name == Some(*name),
                        declared_type(cmd.arguments@, name@) == declared_type(cmd.arguments@.skip(i as int), name@),
                    decreases cmd.arguments@.len() - i,
                {
                    assert(cmd.arguments@.skip(i as int).drop_first() =~= cmd.arguments@.skip(i + 1));
                    assert(cmd.arguments@.skip(i as int)[0] == cmd.arguments@[i as int]);
                    if cmd.arguments[i].name == *name {
                        return cmd.arguments[i].value_type;
                    }
                    i = i + 1;
                }
                ValueType::Any
            },
            _ => ValueType::Any,
        }
    }
}

/// The part of an attribute that stands before the cursor.
pub open spec fn attr_token(a: TrackedString, cursor: int) -> Seq<char> {
    if a.location.start >= cursor {
        Seq::empty()
    } else if a.location.spec_contains(cursor) {
        let k = cursor - a.location.start;
        if k <= a.string@.len() { a.string@.subrange(0, k) } else { a.string@ }
    } else {
        a.string@
    }
}

/// The member path a label or an attribute chain spells, cut at the cursor.
pub open spec fn spec_simple_attr(n: Node, cursor: int) -> Option<Seq<Seq<char>>>
    decreases n,
{
    match n {
        Node::Label(l) => Some(seq![l.string@]),
        Node::GetAttr(p, a) => match spec_simple_attr(*p, cursor) {
            Some(r) => Some(r.push(attr_token(a, cursor))),
            None => None,
        },
        _ => None,
    }
}

/// The file path components a label or a path chain spells.
pub open spec fn spec_simple_path(n: Node) -> Option<Seq<Seq<char>>>
    decreases n,
{
    match n {
        Node::Label(l) => Some(seq![l.string@]),
        Node::Path(p, a) => match spec_simple_path(*p) {
            Some(r) => Some(r.push(a.string@)),
            None => None,
        },
        _ => None,
    }
}

fn simple_attr(node: &Node, cursor: usize) -> (r: Result<Vec<String>, CompletionError>)
    ensures
        match spec_simple_attr(*node, cursor as int) {
            Some(f) => r matches Ok(v) && strings_view(v@) == f,
            None => r == Err::<Vec<String>, CompletionError>(CompletionError::InvalidPath),
        },
    decreases node,
{
    match node {
        Node::Label(label) => {
            let mut res: Vec<String> = Vec::new();
            res.push(label.string.clone());
            assert(strings_view(res@) =~= seq![label.string@]);
            Ok(res)
        },
        Node::GetAttr(p, a) => {
            let mut res = simple_attr(p, cursor)?;
            let tok = if a.location.start >= cursor {
                String::new()
            } else if a.location.contains(cursor) {
                let k = cursor - a.location.start;
                let len = a.string.as_str().unicode_len();
                if k <= len {
                    a.string.as_str().substring_char(0, k).to_owned()
                } else {
                    a.string.clone()
                }
            } else {
                a.string.clone()
            };
            let ghost before = res@;
            res.push(tok);
            assert(strings_view(res@) =~= strings_view(before).push(tok@));
            Ok(res)
        },
        _ => Err(CompletionError::InvalidPath),
    }
}

fn simple_path(node: &Node) -> (r: Result<Vec<String>, CompletionError>)
    ensures
        match spec_simple_path(*node) {
            Some(f) => r matches Ok(v) && strings_view(v@) == f,
            None => r == Err::<Vec<String>, CompletionError>(CompletionError::InvalidPath),
        },
    decreases node,
{
    match node {
        Node::Label(label) => {
            let mut res: Vec<String> = Vec::new();
            res.push(label.string.clone());
            assert(strings_view(res@) =~= seq![label.string@]);
            Ok(res)
        },
        Node::Path(p, a) => {
            let mut res = simple_path(p)?;
            let ghost before = res@;
            res.push(a.string.clone());
            assert(strings_view(res@) =~= strings_view(before).push(a.string@));
            Ok(res)
        },
        _ => Err(CompletionError::InvalidPath),
    }
}

/// The value an expression names in a scope: a label is looked up; no value of this
/// library has members, so nothing else names a value.
pub open spec fn spec_fetch_value(n: Node, env: Seq<Seq<crate::env::Binding>>) -> Option<Cell> {
    match n {
        Node::Label(l) => lookup_frames(env, l.string@),
        _ => None,
    }
}

fn fetch_value<'a>(node: &Node, scope: &'a Env) -> (r: Option<&'a Cell>)
    ensures
        r is Some <==> spec_fetch_value(*node, scope@) is Some,
        r is Some ==> spec_fetch_value(*node, scope@) == Some(*r.unwrap()),
{
    match node {
        Node::Label(l) => scope.lookup(l.string.as_str()),
        _ => None,
    }
}

/// `c` describes the command that `v` holds, if it holds one.
pub open spec fn describes(c: CompletionCommand, v: Option<Cell>) -> bool {
    match v {
        Some(Cell::Command(sig)) => c matches CompletionCommand::Known(k) && k.name == sig.name
            && k.arguments@ == sig.arguments@,
        _ => c is Unknown,
    }
}

fn parse_command_node(node: &Node, scope: &Env) -> (r: CompletionCommand)
    ensures
        describes(r, spec_fetch_value(*node, scope@)),
{
    match fetch_value(node, scope) {
        Some(Cell::Command(command)) => CompletionCommand::Known(command.copy()),
        _ => CompletionCommand::Unknown,
    }
}

/// `r` is a partial argument of the command that `called` holds, named `name`, with
/// `last` as its last argument.
pub open spec fn is_partial(
    r: Result<ParseResult, CompletionError>,
    called: Option<Cell>,
    name: Option<Seq<char>>,
    last: LastArgumentView,
) -> bool {
    r matches Ok(ParseResult::PartialArgument(p)) && describes(p.command, called)
        && p.previous_arguments@.len() == 0 && p.last_argument@ == last && match (
        p.last_argument_name,
        name,
    ) {
        (None, None) => true,
        (Some(a), Some(b)) => a@ == b,
        _ => false,
    }
}

/// The argument being written, its name if it is given as `name=value`, and whether
/// the cursor is on the name itself.
pub open spec fn argument_choice(last: Node, cursor: int) -> (Node, Option<Seq<char>>, bool) {
    match last {
        Node::Assignment(name, _, value) => {
            if name.spec_location().spec_contains(cursor) {
                (*name, None, true)
            } else {
                match *name {
                    Node::Label(l) => (*value, Some(l.string@), false),
                    _ => (*value, None, false),
                }
            }
        },
        _ => (last, None, false),
    }
}

/// What completion answers for a command of two or more expressions.
pub open spec fn argument_outcome(
    cmd: CommandNode,
    cursor: int,
    env: Seq<Seq<crate::env::Binding>>,
    r: Result<ParseResult, CompletionError>,
) -> bool {
    let called = spec_fetch_value(cmd.expressions[0], env);
    let (arg, name, on_name) = argument_choice(cmd.expressions@.last(), cursor);
    if on_name {
        match arg {
            Node::Label(l) => is_partial(r, called, name, LastArgumentView::Switch(l.string@)),
            _ => r == Err::<ParseResult, CompletionError>(CompletionError::InvalidArgumentName),
        }
    } else if arg.spec_location().spec_contains(cursor) {
        match arg {
            Node::Label(l) => is_partial(r, called, name, LastArgumentView::Field(seq![l.string@])),
            Node::GetAttr(_, _) => match spec_simple_attr(arg, cursor) {
                Some(f) => is_partial(r, called, name, LastArgumentView::Field(f)),
                None => r == Err::<ParseResult, CompletionError>(CompletionError::InvalidPath),
            },
            Node::Path(_, _) => match spec_simple_path(arg) {
                Some(f) => is_partial(r, called, name, LastArgumentView::Path(f)),
                None => r == Err::<ParseResult, CompletionError>(CompletionError::InvalidPath),
            },
            Node::String(s) => is_partial(r, called, name, LastArgumentView::QuotedString(s.string@)),
            _ => r == Err::<ParseResult, CompletionError>(CompletionError::CannotExtractArgument),
        }
    } else {
        is_partial(r, called, name, LastArgumentView::Unknown)
    }
}

/// What completion answers for the command under the cursor.
pub open spec fn command_outcome(
    cmd: CommandNode,
    cursor: int,
    env: Seq<Seq<crate::env::Binding>>,
    r: Result<ParseResult, CompletionError>,
) -> bool {
    if cmd.expressions.len() == 0 {
        r matches Ok(ParseResult::Nothing)
    } else if cmd.expressions.len() == 1 {
        let e = cmd.expressions[0];
        if e.spec_location().spec_contains(cursor) {
            match e {
                Node::Label(_) => match spec_simple_attr(e, cursor) {
                    Some(f) => r matches Ok(ParseResult::PartialCommand(v)) && strings_view(v@) == f,
                    None => r == Err::<ParseResult, CompletionError>(CompletionError::InvalidPath),
                },
                Node::GetAttr(_, _) => match spec_simple_attr(e, cursor) {
                    Some(f) => r matches Ok(ParseResult::PartialCommand(v)) && strings_view(v@) == f,
                    None => r == Err::<ParseResult, CompletionError>(CompletionError::InvalidPath),
                },
                Node::Path(_, _) => match spec_simple_path(e) {
                    Some(f) => r matches Ok(ParseResult::PartialPath(v)) && strings_view(v@) == f,
                    None => r == Err::<ParseResult, CompletionError>(CompletionError::InvalidPath),
                },
                Node::File(_) => r == Err::<ParseResult, CompletionError>(CompletionError::Unsupported),
                Node::String(_) => r == Err::<ParseResult, CompletionError>(CompletionError::Unsupported),
                Node::GetItem(_, _) => r == Err::<ParseResult, CompletionError>(CompletionError::Unsupported),
                _ => r == Err::<ParseResult, CompletionError>(CompletionError::CannotExtractCommand),
            }
        } else {
            is_partial(r, spec_fetch_value(e, env), None, LastArgumentView::Unknown)
        }
    } else {
        argument_outcome(cmd, cursor, env, r)
    }
}

fn choose_argument(last: &Node, cursor: usize) -> (r: (&Node, Option<String>, bool))
    ensures
        *r.0 == argument_choice(*last, cursor as int).0,
        r.2 == argument_choice(*last, cursor as int).2,
        r.1 is Some <==> argument_choice(*last, cursor as int).1 is Some,
        r.1 is Some ==> r.1.unwrap()@ == argument_choice(*last, cursor as int).1.unwrap(),
{
    match last {
        Node::Assignment(name, _, value) => {
            if name.location().contains(cursor) {
                (name, None, true)
            } else {
                match &**name {
                    Node::Label(l) => (value, Some(l.string.clone()), false),
                    _ => (value, None, false),
                }
            }
        },
        _ => (last, None, false),
    }
}

fn partial(command: CompletionCommand, name: Option<String>, last: LastArgument) -> (r: Result<
    ParseResult,
    CompletionError,
>)
    ensures
        r matches Ok(ParseResult::PartialArgument(p)) && p.command == command
            && p.previous_arguments@.len() == 0 && p.last_argument == last
            && p.last_argument_name == name,
{
    Ok(
        ParseResult::PartialArgument(
            PartialCommandResult {
                command,
                previous_arguments: Vec::new(),
                last_argument_name: name,
                last_argument: last,
            },
        ),
    )
}

/// Finds what the cursor stands in within `ast`, the parsed command line up to the
/// cursor: the command being named, a path, or an argument of a command (with what
/// `scope` says of that command).
pub fn parse(ast: &JobListNode, cursor: usize, scope: &Env) -> (r: Result<
    ParseResult,
    CompletionError,
>)
    ensures
        ast.jobs@.len() == 0 ==> r matches Ok(ParseResult::Nothing),
        ast.jobs@.len() > 0 ==> match find_in_job_list(*ast, 0, cursor as int) {
            None => r == Err::<ParseResult, CompletionError>(CompletionError::NothingToComplete),
            Some(cmd) => command_outcome(cmd, cursor as int, scope@, r),
        },
{
    if ast.jobs.len() == 0 {
        return Ok(ParseResult::Nothing);
    }
    let cmd = find_command_in_job_list(ast, cursor)?;
    let n = cmd.expressions.len();
    if n == 0 {
        Ok(ParseResult::Nothing)
    } else if n == 1 {
        let e = &cmd.expressions[0];
        if e.location().contains(cursor) {
            match e {
                Node::Label(_) => Ok(ParseResult::PartialCommand(simple_attr(e, cursor)?)),
                Node::GetAttr(_, _) => Ok(ParseResult::PartialCommand(simple_attr(e, cursor)?)),
                Node::Path(_, _) => Ok(ParseResult::PartialPath(simple_path(e)?)),
                Node::File(_) => Err(CompletionError::Unsupported),
                Node::String(_) => Err(CompletionError::Unsupported),
                Node::GetItem(_, _) => Err(CompletionError::Unsupported),
                _ => Err(CompletionError::CannotExtractCommand),
            }
        } else {
            partial(parse_command_node(e, scope), None, LastArgument::Unknown)
        }
    } else {
        let c = parse_command_node(&cmd.expressions[0], scope);
        let (arg, name, on_name) = choose_argument(&cmd.expressions[n - 1], cursor);
        if on_name {
            match arg {
                Node::Label(l) => partial(c, name, LastArgument::Switch(l.string.clone())),
                _ => Err(CompletionError::InvalidArgumentName),
            }
        } else if arg.location().contains(cursor) {
            match arg {
                Node::Label(l) => {
                    let mut f: Vec<String> = Vec::new();
                    f.push(l.string.clone());
                    assert(strings_view(f@) =~= seq![l.string@]);
                    partial(c, name, LastArgument::Field(f))
                },
                Node::GetAttr(_, _) => {
                    let f = simple_attr(arg, cursor)?;
                    partial(c, name, LastArgument::Field(f))
                },
                Node::Path(_, _) => {
                    let f = simple_path(arg)?;
                    partial(c, name, LastArgument::Path(f))
                },
                Node::String(s) => partial(c, name, LastArgument::QuotedString(s.string.clone())),
                _ => Err(CompletionError::CannotExtractArgument),
            }
        } else {
            partial(c, name, LastArgument::Unknown)
        }
    }
}

} // verus!
