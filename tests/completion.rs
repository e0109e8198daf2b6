use crush::ast::{CommandNode, JobListNode, JobNode, Location, Node, TrackedString};
use crush::completion::{
    find_command_in_job_list, parse, CompletionCommand, CompletionError, LastArgument, ParseResult,
};
use crush::data::{ArgumentDescription, Cell, CommandSignature, ValueType};
use crush::env::Env;

fn word(s: &str, start: usize, end: usize) -> TrackedString {
    TrackedString { string: s.to_string(), location: Location::new(start, end) }
}

fn label(s: &str, start: usize, end: usize) -> Node {
    Node::Label(word(s, start, end))
}

fn command(expressions: Vec<Node>, start: usize, end: usize) -> CommandNode {
    CommandNode { expressions, location: Location::new(start, end) }
}

fn job(commands: Vec<CommandNode>, start: usize, end: usize) -> JobNode {
    JobNode { commands, location: Location::new(start, end) }
}

fn job_list(jobs: Vec<JobNode>, start: usize, end: usize) -> JobListNode {
    JobListNode { jobs, location: Location::new(start, end) }
}

// "a (b)"
fn substitution_line() -> JobListNode {
    let inner = job(vec![command(vec![label("b", 3, 4)], 3, 4)], 2, 5);
    job_list(
        vec![job(vec![command(vec![label("a", 0, 1), Node::Substitution(inner)], 0, 5)], 0, 5)],
        0,
        5,
    )
}

// "a {b}"
fn closure_line() -> JobListNode {
    let inner = job_list(vec![job(vec![command(vec![label("b", 3, 4)], 3, 4)], 3, 4)], 2, 5);
    job_list(
        vec![job(vec![command(vec![label("a", 0, 1), Node::Closure(inner)], 0, 5)], 0, 5)],
        0,
        5,
    )
}

// "a | b {c:d (e f=g) h=(i j)}"
fn complicated_line() -> JobListNode {
    let e_f_g = job(
        vec![command(
            vec![
                label("e", 12, 13),
                Node::Assignment(
                    Box::new(label("f", 14, 15)),
                    "=".to_string(),
                    Box::new(label("g", 16, 17)),
                ),
            ],
            12,
            17,
        )],
        11,
        18,
    );
    let i_j = job(vec![command(vec![label("i", 22, 23), label("j", 24, 25)], 22, 25)], 21, 26);
    let body = command(
        vec![
            Node::GetAttr(Box::new(label("c", 7, 8)), word("d", 9, 10)),
            Node::Substitution(e_f_g),
            Node::Assignment(
                Box::new(label("h", 19, 20)),
                "=".to_string(),
                Box::new(Node::Substitution(i_j)),
            ),
        ],
        7,
        26,
    );
    let closure = job_list(vec![job(vec![body], 7, 26)], 6, 27);
    job_list(
        vec![job(
            vec![
                command(vec![label("a", 0, 1)], 0, 1),
                command(vec![label("b", 4, 5), Node::Closure(closure)], 4, 27),
            ],
            0,
            27,
        )],
        0,
        27,
    )
}

// "ps | where {^cpu == (max_)}"
fn operator_line() -> JobListNode {
    let max = job(vec![command(vec![label("max_", 21, 25)], 21, 25)], 20, 26);
    let body = command(
        vec![
            Node::Field(word("^cpu", 12, 16)),
            label("==", 17, 19),
            Node::Substitution(max),
        ],
        12,
        26,
    );
    let closure = job_list(vec![job(vec![body], 12, 26)], 11, 27);
    job_list(
        vec![job(
            vec![
                command(vec![label("ps", 0, 2)], 0, 2),
                command(vec![label("where", 5, 10), Node::Closure(closure)], 5, 27),
            ],
            0,
            27,
        )],
        0,
        27,
    )
}

#[test]
fn find_command_in_substitution_test() {
    let ast = substitution_line();
    let cmd = find_command_in_job_list(&ast, 4).unwrap();
    assert_eq!(cmd.location, Location::new(3, 4))
}

#[test]
fn find_command_in_closure_test() {
    let ast = closure_line();
    let cmd = find_command_in_job_list(&ast, 4).unwrap();
    assert_eq!(cmd.location, Location::new(3, 4))
}

#[test]
fn find_command_in_complicated_mess_test() {
    let ast = complicated_line();
    let cmd = find_command_in_job_list(&ast, 25).unwrap();
    assert_eq!(cmd.location, Location::new(22, 25))
}

#[test]
fn find_command_in_operator() {
    let ast = operator_line();
    let cmd = find_command_in_job_list(&ast, 25).unwrap();
    assert_eq!(cmd.location, Location::new(21, 25))
}

#[test]
fn find_command_in_empty_job_list_fails() {
    let ast = job_list(vec![], 0, 0);
    assert!(matches!(find_command_in_job_list(&ast, 0), Err(CompletionError::NothingToComplete)));
}

#[test]
fn parse_empty_line_is_nothing() {
    let ast = job_list(vec![], 0, 0);
    let scope = Env::new();
    assert!(matches!(parse(&ast, 0, &scope), Ok(ParseResult::Nothing)));
}

#[test]
fn parse_partial_command_cuts_attribute_at_cursor() {
    // "abc:defg" with the cursor after "abc:de"
    let ast = job_list(
        vec![job(
            vec![command(vec![Node::GetAttr(Box::new(label("abc", 0, 3)), word("defg", 4, 8))], 0, 8)],
            0,
            8,
        )],
        0,
        8,
    );
    let scope = Env::new();
    match parse(&ast, 6, &scope) {
        Ok(ParseResult::PartialCommand(f)) => assert_eq!(f, vec!["abc".to_string(), "de".to_string()]),
        _ => panic!("expected a partial command"),
    }
}

#[test]
fn parse_partial_path() {
    // "a/b"
    let ast = job_list(
        vec![job(
            vec![command(vec![Node::Path(Box::new(label("a", 0, 1)), word("b", 2, 3))], 0, 3)],
            0,
            3,
        )],
        0,
        3,
    );
    let scope = Env::new();
    match parse(&ast, 3, &scope) {
        Ok(ParseResult::PartialPath(p)) => assert_eq!(p, vec!["a".to_string(), "b".to_string()]),
        _ => panic!("expected a partial path"),
    }
}

fn sort_signature() -> Cell {
    Cell::Command(CommandSignature {
        name: "sort".to_string(),
        arguments: vec![ArgumentDescription { name: "key".to_string(), value_type: ValueType::Text }],
    })
}

#[test]
fn parse_named_argument_of_known_command() {
    // "sort key=n"
    let ast = job_list(
        vec![job(
            vec![command(
                vec![
                    label("sort", 0, 4),
                    Node::Assignment(
                        Box::new(label("key", 5, 8)),
                        "=".to_string(),
                        Box::new(label("n", 9, 10)),
                    ),
                ],
                0,
                10,
            )],
            0,
            10,
        )],
        0,
        10,
    );
    let mut scope = Env::new();
    scope.declare("sort".to_string(), sort_signature());
    match parse(&ast, 10, &scope) {
        Ok(ParseResult::PartialArgument(p)) => {
            assert!(matches!(p.command, CompletionCommand::Known(_)));
            assert_eq!(p.last_argument_name, Some("key".to_string()));
            match &p.last_argument {
                LastArgument::Field(f) => assert_eq!(f, &vec!["n".to_string()]),
                _ => panic!("expected a field"),
            }
            assert_eq!(p.last_argument_type(), ValueType::Text);
        }
        _ => panic!("expected a partial argument"),
    }
}

#[test]
fn parse_switch_when_cursor_on_argument_name() {
    // "sort ke=" with the cursor in "ke"
    let ast = job_list(
        vec![job(
            vec![command(
                vec![
                    label("sort", 0, 4),
                    Node::Assignment(
                        Box::new(label("ke", 5, 7)),
                        "=".to_string(),
                        Box::new(Node::String(word("", 8, 8))),
                    ),
                ],
                0,
                8,
            )],
            0,
            8,
        )],
        0,
        8,
    );
    let scope = Env::new();
    match parse(&ast, 7, &scope) {
        Ok(ParseResult::PartialArgument(p)) => {
            assert!(matches!(p.command, CompletionCommand::Unknown));
            assert_eq!(p.last_argument_name, None);
            assert!(matches!(&p.last_argument, LastArgument::Switch(s) if s == "ke"));
            assert_eq!(p.last_argument_type(), ValueType::Any);
        }
        _ => panic!("expected a partial argument"),
    }
}

#[test]
fn parse_cursor_after_command_is_unknown_argument() {
    // "sort " with the cursor after the space
    let ast = job_list(vec![job(vec![command(vec![label("sort", 0, 4)], 0, 5)], 0, 5)], 0, 5);
    let mut scope = Env::new();
    scope.declare("sort".to_string(), sort_signature());
    match parse(&ast, 5, &scope) {
        Ok(ParseResult::PartialArgument(p)) => {
            assert!(matches!(p.command, CompletionCommand::Known(ref c) if c.name == "sort"));
            assert!(matches!(p.last_argument, LastArgument::Unknown));
            assert_eq!(p.last_argument_type(), ValueType::Any);
        }
        _ => panic!("expected a partial argument"),
    }
}

#[test]
fn parse_quoted_string_command_is_unsupported() {
    let ast = job_list(vec![job(vec![command(vec![Node::String(word("ab", 0, 2))], 0, 2)], 0, 2)], 0, 2);
    let scope = Env::new();
    assert!(matches!(parse(&ast, 1, &scope), Err(CompletionError::Unsupported)));
}

#[test]
fn completion_command_copy_keeps_signature() {
    let known = match sort_signature() {
        Cell::Command(c) => CompletionCommand::Known(c),
        _ => unreachable!(),
    };
    match known.copy() {
        CompletionCommand::Known(c) => {
            assert_eq!(c.name, "sort");
            assert_eq!(c.arguments.len(), 1);
            assert_eq!(c.arguments[0].name, "key");
        }
        CompletionCommand::Unknown => panic!("expected a known command"),
    }
    assert!(matches!(CompletionCommand::Unknown.copy(), CompletionCommand::Unknown));
}
