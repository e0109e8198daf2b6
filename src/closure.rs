use vstd::prelude::*;
use crate::data::{Argument, ColumnType, Row};
use crate::env::{Binding, Env, Scope, lookup_frame, lookup_frames, same_frames};
use crate::errors::{JobError, JobResult};
use crate::job::{JobDefinition, same_job, stage_outcome};
use crate::printer::{Printer, PrinterMessage};
use crate::stream::{InputStream, OutputStream};

verus! {

/// A compiled pipeline and the scope it was defined in.
#[derive(Debug)]
pub struct ClosureDefinition {
    job_definitions: Vec<JobDefinition>,
    env: Option<Env>,
}

/// The bindings that call arguments make: one per named argument, in order; unnamed
/// arguments make none.
pub open spec fn named_bindings(args: Seq<Argument>) -> Seq<Binding>
    decreases args.len(),
{
    if args.len() == 0 {
        Seq::empty()
    } else {
        let rest = named_bindings(args.drop_last());
        match args.last().name {
            Some(n) => rest.push(Binding { name: n, value: args.last().cell }),
            None => rest,
        }
    }
}

/// The message that mirrors a stage's failure on the console.
pub open spec fn mirrored(r: JobResult<()>) -> Seq<PrinterMessage> {
    match r {
        Err(e) => seq![PrinterMessage::JobError(e)],
        Ok(_) => Seq::empty(),
    }
}

/// The messages that a printer relay makes of the rows a stage wrote to it.
pub open spec fn relayed(rows: Seq<Row>) -> Seq<PrinterMessage> {
    rows.map_values(|r: Row| PrinterMessage::Row(r))
}

/// The schema of what stage `i` reads: the external input's for the first stage, none
/// for the others.
pub open spec fn stage_schema(i: int, s: Seq<ColumnType>) -> Seq<ColumnType> {
    if i == 0 { s } else { Seq::empty() }
}

/// The rows stage `i` reads: the external input's for the first stage, none for the others.
pub open spec fn stage_rows(i: int, rows: Seq<Row>) -> Seq<Row> {
    if i == 0 { rows } else { Seq::empty() }
}

/// Running stages `i..` of `defs` in scope `env`: the first stage reads the external
/// input (schema `s`, `rows`); every other stage reads an empty stream. Every stage but
/// the last writes to a printer relay; the last writes to the external output, which
/// expects `expected` and holds `before`, then `after`. The printer's queue goes from
/// `m0` to `m1`. The first failing stage ends the run, and its error is the result.
pub open spec fn pipeline(
    defs: Seq<JobDefinition>,
    i: int,
    env: Seq<Seq<Binding>>,
    s: Seq<ColumnType>,
    rows: Seq<Row>,
    m0: Seq<PrinterMessage>,
    expected: Option<Seq<ColumnType>>,
    before: Seq<Row>,
    connected: bool,
    r: JobResult<()>,
    m1: Seq<PrinterMessage>,
    after: Seq<Row>,
) -> bool
    decreases defs.len() - i,
{
    if i + 1 >= defs.len() {
        stage_outcome(defs[i], env, stage_schema(i, s), stage_rows(i, rows), expected, before, connected, r, after)
            && m1 == m0 + mirrored(r)
    } else {
        exists|sr: JobResult<()>, relay: Seq<Row>|
            #[trigger] stage_outcome(defs[i], env, stage_schema(i, s), stage_rows(i, rows), None, Seq::empty(), true, sr, relay)
                && if sr is Err {
                r == sr && m1 == m0 + relayed(relay) + mirrored(sr) && after == before
            } else {
                pipeline(defs, i + 1, env, s, rows, m0 + relayed(relay), expected, before, connected, r, m1, after)
            }
    }
}

/// A closure of one stage wires the external input and output to that stage, and its
/// result is the stage's result, unchanged.
pub proof fn law_single_stage_is_wired_directly(
    defs: Seq<JobDefinition>,
    env: Seq<Seq<Binding>>,
    s: Seq<ColumnType>,
    rows: Seq<Row>,
    m0: Seq<PrinterMessage>,
    expected: Option<Seq<ColumnType>>,
    before: Seq<Row>,
    connected: bool,
    r: JobResult<()>,
    m1: Seq<PrinterMessage>,
    after: Seq<Row>,
)
    requires
        defs.len() == 1,
    ensures
        pipeline(defs, 0, env, s, rows, m0, expected, before, connected, r, m1, after) <==> (
        stage_outcome(defs[0], env, s, rows, expected, before, connected, r, after) && m1 == m0
            + mirrored(r)),
{
}

/// In a closure of two stages the second stage reads an empty input, and what the first
/// stage writes goes to the printer; a failure of the first stage ends the run.
pub proof fn law_two_stages_relay_first_output(
    defs: Seq<JobDefinition>,
    env: Seq<Seq<Binding>>,
    s: Seq<ColumnType>,
    rows: Seq<Row>,
    m0: Seq<PrinterMessage>,
    expected: Option<Seq<ColumnType>>,
    before: Seq<Row>,
    connected: bool,
    r: JobResult<()>,
    m1: Seq<PrinterMessage>,
    after: Seq<Row>,
)
    requires
        defs.len() == 2,
    ensures
        pipeline(defs, 0, env, s, rows, m0, expected, before, connected, r, m1, after) <==> exists|
            sr: JobResult<()>,
            relay: Seq<Row>,
        |
            #[trigger] stage_outcome(defs[0], env, s, rows, None, Seq::empty(), true, sr, relay) && if sr is Err {
                r == sr && m1 == m0 + relayed(relay) + mirrored(sr) && after == before
            } else {
                stage_outcome(defs[1], env, Seq::empty(), Seq::empty(), expected, before, connected, r, after)
                    && m1 == m0 + relayed(relay) + mirrored(r)
            },
{
    assert(stage_schema(0, s) == s);
    assert(stage_rows(0, rows) == rows);
    assert(stage_schema(1, s) == Seq::<ColumnType>::empty());
    assert(stage_rows(1, rows) == Seq::<Row>::empty());
    if pipeline(defs, 0, env, s, rows, m0, expected, before, connected, r, m1, after) {
        let (sr, relay) = choose|sr: JobResult<()>, relay: Seq<Row>|
            #[trigger] stage_outcome(defs[0], env, stage_schema(0, s), stage_rows(0, rows), None, Seq::empty(), true, sr, relay)
                && if sr is Err {
                r == sr && m1 == m0 + relayed(relay) + mirrored(sr) && after == before
            } else {
                pipeline(defs, 1, env, s, rows, m0 + relayed(relay), expected, before, connected, r, m1, after)
            };
        assert(stage_outcome(defs[0], env, s, rows, None, Seq::empty(), true, sr, relay));
        assert(pipeline(defs, 1, env, s, rows, m0 + relayed(relay), expected, before, connected, r, m1, after)
            <==> (stage_outcome(defs[1], env, Seq::empty(), Seq::empty(), expected, before, connected, r, after)
            && m1 == m0 + relayed(relay) + mirrored(r)));
    }
    if exists|sr: JobResult<()>, relay: Seq<Row>|
        #[trigger] stage_outcome(defs[0], env, s, rows, None, Seq::empty(), true, sr, relay) && if sr is Err {
            r == sr && m1 == m0 + relayed(relay) + mirrored(sr) && after == before
        } else {
            stage_outcome(defs[1], env, Seq::empty(), Seq::empty(), expected, before, connected, r, after)
                && m1 == m0 + relayed(relay) + mirrored(r)
        } {
        let (sr, relay) = choose|sr: JobResult<()>, relay: Seq<Row>|
            #[trigger] stage_outcome(defs[0], env, s, rows, None, Seq::empty(), true, sr, relay) && if sr is Err {
                r == sr && m1 == m0 + relayed(relay) + mirrored(sr) && after == before
            } else {
                stage_outcome(defs[1], env, Seq::empty(), Seq::empty(), expected, before, connected, r, after)
                    && m1 == m0 + relayed(relay) + mirrored(r)
            };
        assert(stage_outcome(defs[0], env, stage_schema(0, s), stage_rows(0, rows), None, Seq::empty(), true, sr, relay));
        assert(pipeline(defs, 1, env, s, rows, m0 + relayed(relay), expected, before, connected, r, m1, after)
            <==> (stage_outcome(defs[1], env, Seq::empty(), Seq::empty(), expected, before, connected, r, after)
            && m1 == m0 + relayed(relay) + mirrored(r)));
    }
}

proof fn lemma_named_binding_found(args: Seq<Argument>, i: int)
    requires
        0 <= i < args.len(),
        args[i].name is Some,
        forall|j: int|
            i < j < args.len() ==> (#[trigger] args[j].name) is None || args[j].name.unwrap()@
                != args[i].name.unwrap()@,
    ensures
        lookup_frame(named_bindings(args), args[i].name.unwrap()@) == Some(args[i].cell),
    decreases args.len(),
{
    let rest = args.drop_last();
    if i < args.len() - 1 {
        assert(args.last() == args[args.len() - 1]);
        assert forall|j: int| i < j < rest.len() implies (#[trigger] rest[j].name) is None
            || rest[j].name.unwrap()@ != rest[i].name.unwrap()@ by {
            assert(rest[j] == args[j]);
        }
        lemma_named_binding_found(rest, i);
        match args.last().name {
            Some(n) => {
                let f = named_bindings(args);
                assert(f.drop_last() == named_bindings(rest));
            },
            None => {},
        }
    }
}

/// Binding call arguments into a fresh frame over any scope makes each named argument
/// resolve to its value inside the invocation, unless a later argument reuses its name.
pub proof fn law_named_argument_resolves(parent: Seq<Seq<Binding>>, args: Seq<Argument>, i: int)
    requires
        0 <= i < args.len(),
        args[i].name is Some,
        forall|j: int|
            i < j < args.len() ==> (#[trigger] args[j].name) is None || args[j].name.unwrap()@
                != args[i].name.unwrap()@,
    ensures
        lookup_frames(parent.push(named_bindings(args)), args[i].name.unwrap()@) == Some(args[i].cell),
{
    lemma_named_binding_found(args, i);
    let env = parent.push(named_bindings(args));
    assert(env.last() == named_bindings(args));
}

/// An unnamed argument creates no binding.
pub proof fn law_unnamed_argument_binds_nothing(args: Seq<Argument>, a: Argument)
    requires
        a.name is None,
    ensures
        named_bindings(args.push(a)) == named_bindings(args),
{
    assert(args.push(a).drop_last() =~= args);
}

fn relay_rows(rows: Vec<Row>, printer: &mut Printer)
    ensures
        final(printer).queued() == old(printer).queued() + relayed(rows@),
{
    let total = rows.len();
    let ghost all = rows@;
    let mut rest = rows;
    let mut i: usize = 0;
    while rest.len() > 0
        invariant
            i <= all.len(),
            all.len() == total,
            rest@ == all.skip(i as int),
            rest@.len() == all.len() - i,
            printer.queued() == old(printer).queued() + relayed(all.take(i as int)),
        decreases rest@.len(),
    {
        let row = rest.remove(0);
        assert(row == all[i as int]);
        assert(rest@ =~= all.skip(i + 1));
        printer.row(row);
        assert(all.take(i + 1) =~= all.take(i as int).push(row));
        assert(relayed(all.take(i + 1)) =~= relayed(all.take(i as int)).push(PrinterMessage::Row(row)));
        i = i + 1;
    }
    assert(all.take(i as int) =~= all);
}

impl ClosureDefinition {
    pub closed spec fn stages(&self) -> Seq<JobDefinition> {
        self.job_definitions@
    }

    pub closed spec fn scope(&self) -> Option<Env> {
        self.env
    }

    /// A closure of `job_definitions` with no scope bound yet.
    pub fn new(job_definitions: Vec<JobDefinition>) -> (r: ClosureDefinition)
        ensures
            r.stages() == job_definitions@,
            r.scope() is None,
    {
        ClosureDefinition { job_definitions, env: None }
    }

    /// A copy of this closure bound to the scope `env`, for a closure value that is
    /// captured now and called later.
    pub fn with_env(&self, env: &Env) -> (r: ClosureDefinition)
        ensures
            r.stages().len() == self.stages().len(),
            forall|i: int| 0 <= i < r.stages().len() ==> same_job(#[trigger] r.stages()[i], self.stages()[i]),
            r.scope() is Some,
            same_frames(r.scope().unwrap()@, env@),
    {
        let mut job_definitions: Vec<JobDefinition> = Vec::new();
        let mut i: usize = 0;
        while i < self.job_definitions.len()
            invariant
                i <= self.job_definitions@.len(),
                job_definitions@.len() == i,
                forall|k: int| 0 <= k < i ==> same_job(#[trigger] job_definitions@[k], self.job_definitions@[k]),
            decreases self.job_definitions@.len() - i,
        {
            job_definitions.push(self.job_definitions[i].copy());
            i = i + 1;
        }
        ClosureDefinition { job_definitions, env: Some(env.copy()) }
    }

    /// Binds every named argument in the invocation's private frame.
    fn push_arguments_to_env(arguments: Vec<Argument>, scope: &mut Scope)
        ensures
            final(scope).parent == old(scope).parent,
            final(scope).frame@ == old(scope).frame@ + named_bindings(arguments@),
    {
        let total = arguments.len();
        let ghost all = arguments@;
        let mut rest = arguments;
        let mut i: usize = 0;
        assert(named_bindings(all.take(0)) =~= Seq::<Binding>::empty());
        assert(scope.frame@ + Seq::<Binding>::empty() =~= scope.frame@);
        while rest.len() > 0
            invariant
                i <= all.len(),
                all.len() == total,
                rest@ == all.skip(i as int),
                rest@.len() == all.len() - i,
                scope.parent == old(scope).parent,
                scope.frame@ == old(scope).frame@ + named_bindings(all.take(i as int)),
            decreases rest@.len(),
        {
            let arg = rest.remove(0);
            assert(arg == all[i as int]);
            assert(rest@ =~= all.skip(i + 1));
            assert(all.take(i + 1).drop_last() =~= all.take(i as int));
            assert(all.take(i + 1).last() == arg);
            let ghost prev = scope.frame@;
            match arg.name {
                Some(name) => {
                    scope.declare(name, arg.cell);
                    assert(scope.frame@ =~= old(scope).frame@ + named_bindings(all.take(i + 1)));
                },
                None => {},
            }
            i = i + 1;
        }
        assert(all.take(i as int) =~= all);
    }

    /// Runs the closure with call `arguments`, reading `input`, writing `output` and
    /// showing relayed rows and failures on `printer`.
    pub fn spawn_and_execute(
        &self,
        arguments: Vec<Argument>,
        printer: &mut Printer,
        input: InputStream,
        output: &mut OutputStream,
    ) -> (r: JobResult<()>)
        requires
            input.wf(),
        ensures
            final(output).spec_declared() == old(output).spec_declared(),
            final(output).spec_connected() == old(output).spec_connected(),
            self.scope() is None ==> r == Err::<(), JobError>(JobError::MissingEnvironment)
                && final(printer).queued() == old(printer).queued() && final(output).spec_rows()
                == old(output).spec_rows(),
            self.scope() is Some && self.stages().len() == 0 ==> r == Err::<(), JobError>(
                JobError::EmptyPipeline,
            ) && final(printer).queued() == old(printer).queued() && final(output).spec_rows()
                == old(output).spec_rows(),
            self.scope() is Some && self.stages().len() > 0 ==> pipeline(
                self.stages(),
                0,
                self.scope().unwrap()@.push(named_bindings(arguments@)),
                input.spec_schema(),
                input.spec_rows(),
                old(printer).queued(),
                old(output).expected(),
                old(output).spec_rows(),
                old(output).spec_connected(),
                r,
                final(printer).queued(),
                final(output).spec_rows(),
            ),
    {
        let parent = match &self.env {
            Some(e) => e,
            None => {
                return Err(JobError::MissingEnvironment);
            },
        };
        let mut scope = parent.new_stack_frame();
        ClosureDefinition::push_arguments_to_env(arguments, &mut scope);
        let ghost env = scope@;
        assert(env == self.scope().unwrap()@.push(named_bindings(arguments@))) by {
            assert(scope.frame@ =~= named_bindings(arguments@));
        }
        let n = self.job_definitions.len();
        if n == 0 {
            return Err(JobError::EmptyPipeline);
        }
        let ghost defs = self.job_definitions@;
        let ghost s0 = input.spec_schema();
        let ghost rows0 = input.spec_rows();
        let ghost m_start = printer.queued();
        let ghost expected = output.expected();
        let ghost before = output.spec_rows();
        let ghost connected = output.spec_connected();
        let mut pending: Option<InputStream> = Some(input);
        let mut i: usize = 0;
        while i + 1 < n
            invariant
                n == defs.len(),
                self.scope() is Some,
                defs == self.job_definitions@,
                i < n,
                env == scope@,
                env == self.scope().unwrap()@.push(named_bindings(arguments@)),
                i == 0 ==> pending == Some(input),
                i > 0 ==> pending is None,
                input.wf(),
                s0 == input.spec_schema(),
                rows0 == input.spec_rows(),
                output.spec_rows() == before,
                output.expected() == expected,
                output.spec_connected() == connected,
                output.spec_declared() == old(output).spec_declared(),
                expected == old(output).expected(),
                before == old(output).spec_rows(),
                connected == old(output).spec_connected(),
                m_start == old(printer).queued(),
                forall|r: JobResult<()>, m1: Seq<PrinterMessage>, after: Seq<Row>|
                    #[trigger] pipeline(defs, i as int, env, s0, rows0, printer.queued(), expected, before, connected, r, m1, after)
                        ==> pipeline(defs, 0, env, s0, rows0, m_start, expected, before, connected, r, m1, after),
            decreases n - i,
        {
            let stage_input = match pending.take() {
                Some(x) => x,
                None => InputStream::empty(),
            };
            assert(stage_input.spec_schema() =~= stage_schema(i as int, s0));
            assert(stage_input.spec_rows() =~= stage_rows(i as int, rows0));
            let ghost m_here = printer.queued();
            let mut relay = OutputStream::new();
            assert(relay.spec_rows() =~= Seq::<Row>::empty());
            let res = self.job_definitions[i].spawn_and_execute(&scope, stage_input, &mut relay);
            let ghost sent = relay.spec_rows();
            relay_rows(relay.into_rows(), printer);
            proof {
                assert(stage_outcome(
                    defs[i as int],
                    env,
                    stage_schema(i as int, s0),
                    stage_rows(i as int, rows0),
                    None,
                    Seq::empty(),
                    true,
                    res,
                    sent,
                ));
            }
            match res {
                Err(e) => {
                    printer.job_error(e);
                    proof {
                        assert(printer.queued() == m_here + relayed(sent) + mirrored(res));
                        assert(pipeline(defs, i as int, env, s0, rows0, m_here, expected, before, connected, res, printer.queued(), before));
                    }
                    return res;
                },
                Ok(()) => {},
            }
            proof {
                assert forall|r: JobResult<()>, m1: Seq<PrinterMessage>, after: Seq<Row>|
                    pipeline(defs, i + 1, env, s0, rows0, printer.queued(), expected, before, connected, r, m1, after)
                    implies pipeline(defs, 0, env, s0, rows0, m_start, expected, before, connected, r, m1, after) by {
                    assert(printer.queued() == m_here + relayed(sent));
                    assert(stage_outcome(defs[i as int], env, stage_schema(i as int, s0), stage_rows(i as int, rows0), None, Seq::empty(), true, res, sent));
                    assert(pipeline(defs, i as int, env, s0, rows0, m_here, expected, before, connected, r, m1, after));
                }
            }
            i = i + 1;
        }
        let stage_input = match pending.take() {
            Some(x) => x,
            None => InputStream::empty(),
        };
        assert(stage_input.spec_schema() =~= stage_schema(i as int, s0));
        assert(stage_input.spec_rows() =~= stage_rows(i as int, rows0));
        let ghost m_here = printer.queued();
        let res = self.job_definitions[n - 1].spawn_and_execute(&scope, stage_input, output);
        match res {
            Err(e) => {
                printer.job_error(e);
            },
            Ok(()) => {},
        }
        proof {
            assert(i + 1 == n);
            assert(printer.queued() =~= m_here + mirrored(res));
            assert(pipeline(defs, i as int, env, s0, rows0, m_here, expected, before, connected, res, printer.queued(), output.spec_rows()));
        }
        res
    }
}

} // verus!
