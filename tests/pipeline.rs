use crush::closure::ClosureDefinition;
use crush::data::{Argument, Cell, ColumnType, Row, ValueType};
use crush::env::Env;
use crush::errors::JobError;
use crush::job::{ArgumentDefinition, Command, JobDefinition, ValueDefinition};
use crush::printer::{render, ConsoleLine, Printer, PrinterMessage};
use crush::sort::compile_and_run;
use crush::stream::{InputStream, OutputStream};

fn schema_n() -> Vec<ColumnType> {
    vec![ColumnType { name: "n".to_string(), cell_type: ValueType::Integer }]
}

fn int_rows(values: &[i64]) -> Vec<Row> {
    values.iter().map(|v| Row { cells: vec![Cell::Integer(*v)] }).collect()
}

fn ints(rows: &[Row]) -> Vec<i64> {
    rows.iter()
        .map(|r| match r.cells[0] {
            Cell::Integer(i) => i,
            _ => panic!("not an integer"),
        })
        .collect()
}

fn key_argument(value: Cell) -> Argument {
    Argument { name: Some("key".to_string()), cell: value }
}

fn sort_stage(value: ValueDefinition) -> JobDefinition {
    JobDefinition {
        command: Command::Sort,
        arguments: vec![ArgumentDefinition { name: Some("key".to_string()), value }],
    }
}

fn sort_by_n() -> JobDefinition {
    sort_stage(ValueDefinition::Literal(Cell::Text("n".to_string())))
}

#[test]
fn sort_stage_orders_rows() {
    let input = InputStream::new(schema_n(), int_rows(&[3, 1, 2]));
    let mut output = OutputStream::new();
    let r = compile_and_run(vec![key_argument(Cell::Text("n".to_string()))], input, &mut output);
    assert_eq!(r, Ok(()));
    assert_eq!(ints(output.rows()), vec![1, 2, 3]);
}

#[test]
fn sort_stage_accepts_field_key() {
    let input = InputStream::new(schema_n(), int_rows(&[5, -4, 0, 5]));
    let mut output = OutputStream::new();
    let r = compile_and_run(vec![key_argument(Cell::Field("n".to_string()))], input, &mut output);
    assert_eq!(r, Ok(()));
    assert_eq!(ints(output.rows()), vec![-4, 0, 5, 5]);
}

#[test]
fn sort_stage_absent_column_fails_before_reading() {
    let input = InputStream::new(schema_n(), int_rows(&[3, 1, 2]));
    let mut output = OutputStream::new();
    let r = compile_and_run(vec![key_argument(Cell::Text("m".to_string()))], input, &mut output);
    assert_eq!(r, Err(JobError::SchemaMismatch));
    assert!(output.rows().is_empty());
}

#[test]
fn sort_stage_requires_one_key_argument() {
    let input = InputStream::new(schema_n(), int_rows(&[3, 1, 2]));
    let mut output = OutputStream::new();
    assert_eq!(compile_and_run(vec![], input, &mut output), Err(JobError::ArgumentError));
    let input = InputStream::new(schema_n(), int_rows(&[1]));
    let unnamed = Argument { name: None, cell: Cell::Text("n".to_string()) };
    assert_eq!(compile_and_run(vec![unnamed], input, &mut output), Err(JobError::ArgumentError));
    let input = InputStream::new(schema_n(), int_rows(&[1]));
    assert_eq!(
        compile_and_run(vec![key_argument(Cell::Integer(0))], input, &mut output),
        Err(JobError::ArgumentError)
    );
}

#[test]
fn sort_stage_orders_text_and_keeps_equal_keys_in_order() {
    let schema = vec![
        ColumnType { name: "name".to_string(), cell_type: ValueType::Text },
        ColumnType { name: "id".to_string(), cell_type: ValueType::Integer },
    ];
    let row = |s: &str, i: i64| Row { cells: vec![Cell::Text(s.to_string()), Cell::Integer(i)] };
    let input = InputStream::new(schema, vec![row("pear", 1), row("apple", 2), row("pea", 3), row("apple", 4)]);
    let mut output = OutputStream::new();
    let r = compile_and_run(vec![key_argument(Cell::Text("name".to_string()))], input, &mut output);
    assert_eq!(r, Ok(()));
    let ids: Vec<i64> = output.rows().iter().map(|r| match r.cells[1] { Cell::Integer(i) => i, _ => 0 }).collect();
    assert_eq!(ids, vec![2, 4, 3, 1]);
}

#[test]
fn sort_stage_incomparable_keys_fail() {
    let schema = vec![ColumnType { name: "v".to_string(), cell_type: ValueType::Any }];
    let rows = vec![Row { cells: vec![Cell::Integer(1)] }, Row { cells: vec![Cell::Text("x".to_string())] }];
    let mut output = OutputStream::new();
    let r = compile_and_run(vec![key_argument(Cell::Text("v".to_string()))], InputStream::new(schema, rows), &mut output);
    assert_eq!(r, Err(JobError::IncomparableValues));
    assert!(output.rows().is_empty());
}

#[test]
fn sort_stage_disconnected_consumer() {
    let mut output = OutputStream::new();
    output.disconnect();
    let input = InputStream::new(schema_n(), int_rows(&[2, 1]));
    let r = compile_and_run(vec![key_argument(Cell::Text("n".to_string()))], input, &mut output);
    assert_eq!(r, Err(JobError::StreamDisconnected));
    let mut output = OutputStream::new();
    output.disconnect();
    let input = InputStream::new(schema_n(), vec![]);
    let r = compile_and_run(vec![key_argument(Cell::Text("n".to_string()))], input, &mut output);
    assert_eq!(r, Ok(()));
}

#[test]
fn output_schema_must_match_declared_type() {
    let mut output = OutputStream::typed(vec![ColumnType { name: "m".to_string(), cell_type: ValueType::Integer }]);
    assert_eq!(output.initialize(schema_n()), Err(JobError::SchemaMismatch));
    let mut output = OutputStream::typed(vec![ColumnType { name: "n".to_string(), cell_type: ValueType::Text }]);
    assert_eq!(output.initialize(schema_n()), Err(JobError::SchemaMismatch));
    let mut output = OutputStream::typed(schema_n());
    assert_eq!(output.initialize(schema_n()), Ok(()));
    let mut output = OutputStream::new();
    assert_eq!(output.initialize(schema_n()), Ok(()));
    assert_eq!(output.initialize(vec![]), Err(JobError::SchemaMismatch));
}

#[test]
fn sort_stage_into_mismatched_output_fails() {
    let mut output = OutputStream::typed(vec![]);
    let input = InputStream::new(schema_n(), int_rows(&[2, 1]));
    let r = compile_and_run(vec![key_argument(Cell::Text("n".to_string()))], input, &mut output);
    assert_eq!(r, Err(JobError::SchemaMismatch));
    assert!(output.rows().is_empty());
}

#[test]
fn send_checks_row_width() {
    let mut output = OutputStream::new();
    assert_eq!(output.send(Row { cells: vec![] }), Err(JobError::SchemaMismatch));
    output.initialize(schema_n()).unwrap();
    assert_eq!(output.send(Row { cells: vec![] }), Err(JobError::SchemaMismatch));
    assert_eq!(output.send(Row { cells: vec![Cell::Integer(7)] }), Ok(()));
    assert_eq!(output.rows().len(), 1);
}

#[test]
fn one_stage_closure_writes_to_external_output() {
    let closure = ClosureDefinition::new(vec![sort_by_n()]).with_env(&Env::new());
    let mut printer = Printer::new();
    let mut output = OutputStream::new();
    let input = InputStream::new(schema_n(), int_rows(&[3, 1, 2]));
    let r = closure.spawn_and_execute(vec![], &mut printer, input, &mut output);
    assert_eq!(r, Ok(()));
    assert_eq!(ints(output.rows()), vec![1, 2, 3]);
    assert!(printer.take_messages().is_empty());
}

#[test]
fn one_stage_closure_returns_stage_error_and_mirrors_it() {
    let closure = ClosureDefinition::new(vec![sort_stage(ValueDefinition::Literal(Cell::Text("m".to_string())))])
        .with_env(&Env::new());
    let mut printer = Printer::new();
    let mut output = OutputStream::new();
    let input = InputStream::new(schema_n(), int_rows(&[3, 1, 2]));
    let r = closure.spawn_and_execute(vec![], &mut printer, input, &mut output);
    assert_eq!(r, Err(JobError::SchemaMismatch));
    let lines = render(printer.take_messages());
    assert_eq!(lines.len(), 1);
    assert!(matches!(&lines[0], ConsoleLine::Text(t) if t == "Error: Schema mismatch"));
}

#[test]
fn zero_stage_closure_fails() {
    let closure = ClosureDefinition::new(vec![]).with_env(&Env::new());
    let mut printer = Printer::new();
    let mut output = OutputStream::new();
    let input = InputStream::new(schema_n(), int_rows(&[1]));
    let r = closure.spawn_and_execute(vec![key_argument(Cell::Integer(1))], &mut printer, input, &mut output);
    assert_eq!(r, Err(JobError::EmptyPipeline));
    assert!(output.rows().is_empty());
    assert!(printer.take_messages().is_empty());
}

#[test]
fn unbound_closure_fails() {
    let closure = ClosureDefinition::new(vec![sort_by_n()]);
    let mut printer = Printer::new();
    let mut output = OutputStream::new();
    let input = InputStream::new(schema_n(), int_rows(&[2, 1]));
    let r = closure.spawn_and_execute(vec![], &mut printer, input, &mut output);
    assert_eq!(r, Err(JobError::MissingEnvironment));
    assert!(output.rows().is_empty());
    assert!(printer.take_messages().is_empty());
}

#[test]
fn named_arguments_are_bound_in_the_invocation() {
    let mut env = Env::new();
    env.declare("x".to_string(), Cell::Integer(1));
    let closure = ClosureDefinition::new(vec![sort_stage(ValueDefinition::Variable("x".to_string()))]).with_env(&env);
    let mut printer = Printer::new();
    let mut output = OutputStream::new();
    let input = InputStream::new(schema_n(), int_rows(&[3, 1, 2]));
    let args = vec![
        Argument { name: Some("x".to_string()), cell: Cell::Text("n".to_string()) },
        Argument { name: None, cell: Cell::Integer(9) },
    ];
    let r = closure.spawn_and_execute(args, &mut printer, input, &mut output);
    assert_eq!(r, Ok(()));
    assert_eq!(ints(output.rows()), vec![1, 2, 3]);
    // the binding lived in the invocation's frame only
    assert!(matches!(env.lookup("x"), Some(Cell::Integer(1))));
}

#[test]
fn binding_frame_resolves_named_and_skips_unnamed() {
    let env = Env::new();
    let mut frame = env.new_stack_frame();
    frame.declare("x".to_string(), Cell::Integer(5));
    assert!(matches!(frame.lookup("x"), Some(Cell::Integer(5))));
    assert_eq!(frame.frame.len(), 1);
    assert!(env.lookup("x").is_none());
}

#[test]
fn unnamed_argument_creates_no_binding() {
    let closure = ClosureDefinition::new(vec![sort_stage(ValueDefinition::Variable("x".to_string()))])
        .with_env(&Env::new());
    let mut printer = Printer::new();
    let mut output = OutputStream::new();
    let input = InputStream::new(schema_n(), int_rows(&[3, 1, 2]));
    let args = vec![Argument { name: None, cell: Cell::Text("n".to_string()) }];
    let r = closure.spawn_and_execute(args, &mut printer, input, &mut output);
    assert_eq!(r, Err(JobError::UnknownVariable));
    assert!(output.rows().is_empty());
}

#[test]
fn two_stage_closure_relays_first_output_to_printer() {
    let closure = ClosureDefinition::new(vec![sort_by_n(), sort_by_n()]).with_env(&Env::new());
    let mut printer = Printer::new();
    let mut output = OutputStream::new();
    let input = InputStream::new(schema_n(), int_rows(&[3, 1, 2]));
    let r = closure.spawn_and_execute(vec![], &mut printer, input, &mut output);
    // the second stage reads an empty stream, whose schema lacks the key column
    assert_eq!(r, Err(JobError::SchemaMismatch));
    assert!(output.rows().is_empty());
    let lines = render(printer.take_messages());
    assert_eq!(lines.len(), 4);
    let relayed: Vec<i64> = lines[..3]
        .iter()
        .map(|l| match l {
            ConsoleLine::Row(r) => ints(std::slice::from_ref(r))[0],
            _ => panic!("expected a row"),
        })
        .collect();
    assert_eq!(relayed, vec![1, 2, 3]);
    assert!(matches!(&lines[3], ConsoleLine::Text(t) if t == "Error: Schema mismatch"));
}

#[test]
fn printer_shows_messages_in_enqueue_order_until_shutdown() {
    let mut printer = Printer::new();
    printer.line("one");
    printer.lines(vec!["two".to_string(), "three".to_string()]);
    printer.error("bad");
    printer.job_error(JobError::EmptyPipeline);
    printer.shutdown();
    printer.line("never");
    let lines = render(printer.take_messages());
    let texts: Vec<String> = lines
        .iter()
        .map(|l| match l {
            ConsoleLine::Text(t) => t.clone(),
            ConsoleLine::Row(_) => panic!("no rows were sent"),
        })
        .collect();
    assert_eq!(
        texts,
        vec!["one", "two", "three", "Error: bad", "Error: Empty closures not supported"]
    );
}

#[test]
fn printer_queue_keeps_messages() {
    let mut printer = Printer::new();
    printer.line("a");
    printer.shutdown();
    let messages = printer.take_messages();
    assert_eq!(messages.len(), 2);
    assert!(matches!(&messages[0], PrinterMessage::Line(l) if l == "a"));
    assert!(matches!(messages[1], PrinterMessage::Shutdown));
    assert!(printer.take_messages().is_empty());
}

#[test]
fn error_messages() {
    assert_eq!(JobError::MissingEnvironment.message(), "Closure without env");
    assert_eq!(JobError::EmptyPipeline.message(), "Empty closures not supported");
}
