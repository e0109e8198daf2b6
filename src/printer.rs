use vstd::prelude::*;
use vstd::string::StringExecFns;
use crate::data::Row;
use crate::errors::JobError;

verus! {

/// One request to the printer.
#[derive(Debug)]
pub enum PrinterMessage {
    Shutdown,
    JobError(JobError),
    Error(String),
    Line(String),
    Lines(Vec<String>),
    Row(Row),
}

/// One item written to the console.
#[derive(Debug)]
pub enum ConsoleLine {
    Text(String),
    Row(Row),
}

/// A console item as plain values.
pub enum ConsoleView {
    Text(Seq<char>),
    Row(Row),
}

impl View for ConsoleLine {
    type V = ConsoleView;

    open spec fn view(&self) -> ConsoleView {
        match self {
            ConsoleLine::Text(s) => ConsoleView::Text(s@),
            ConsoleLine::Row(r) => ConsoleView::Row(*r),
        }
    }
}

pub open spec fn error_prefix() -> Seq<char> {
    seq!['E', 'r', 'r', 'o', 'r', ':', ' ']
}

pub open spec fn texts(lines: Seq<String>) -> Seq<ConsoleView> {
    lines.map_values(|l: String| ConsoleView::Text(l@))
}

/// What the console shows for one message; `None` for the shutdown signal.
pub open spec fn shows(m: PrinterMessage) -> Option<Seq<ConsoleView>> {
    match m {
        PrinterMessage::Shutdown => None,
        PrinterMessage::JobError(e) => Some(seq![ConsoleView::Text(error_prefix() + e.spec_message())]),
        PrinterMessage::Error(e) => Some(seq![ConsoleView::Text(error_prefix() + e@)]),
        PrinterMessage::Line(l) => Some(seq![ConsoleView::Text(l@)]),
        PrinterMessage::Lines(ls) => Some(texts(ls@)),
        PrinterMessage::Row(r) => Some(seq![ConsoleView::Row(r)]),
    }
}

/// What the console shows for messages received in order: each message's items, up to
/// the first shutdown.
pub open spec fn console(ms: Seq<PrinterMessage>) -> Seq<ConsoleView>
    decreases ms.len(),
{
    if ms.len() == 0 {
        Seq::empty()
    } else {
        match shows(ms[0]) {
            None => Seq::empty(),
            Some(items) => items + console(ms.drop_first()),
        }
    }
}

/// The console shows messages in the order they were enqueued: a message enqueued
/// while no shutdown is pending adds its own items after everything shown before.
pub proof fn law_console_follows_enqueue_order(ms: Seq<PrinterMessage>, m: PrinterMessage)
    requires
        forall|i: int| 0 <= i < ms.len() ==> !(ms[i] is Shutdown),
        !(m is Shutdown),
    ensures
        console(ms.push(m)) == console(ms) + shows(m).unwrap(),
    decreases ms.len(),
{
    if ms.len() == 0 {
        assert(ms.push(m).drop_first() =~= Seq::<PrinterMessage>::empty());
        assert(ms.push(m)[0] == m);
        assert(console(ms.push(m).drop_first()) == Seq::<ConsoleView>::empty());
        assert(console(ms) == Seq::<ConsoleView>::empty());
        assert(console(ms.push(m)) =~= console(ms) + shows(m).unwrap());
    } else {
        assert(ms.push(m).drop_first() =~= ms.drop_first().push(m));
        law_console_follows_enqueue_order(ms.drop_first(), m);
        assert(ms.push(m)[0] == ms[0]);
        assert(!(ms[0] is Shutdown));
        assert(console(ms.push(m)) =~= console(ms) + shows(m).unwrap());
    }
}

/// Nothing enqueued after a shutdown is ever shown.
pub proof fn law_nothing_after_shutdown(ms: Seq<PrinterMessage>, later: Seq<PrinterMessage>)
    requires
        exists|i: int| 0 <= i < ms.len() && ms[i] is Shutdown,
    ensures
        console(ms + later) == console(ms),
    decreases ms.len(),
{
    assert((ms + later)[0] == ms[0]);
    if !(ms[0] is Shutdown) {
        let i = choose|i: int| 0 <= i < ms.len() && ms[i] is Shutdown;
        assert(ms.drop_first()[i - 1] is Shutdown);
        assert((ms + later).drop_first() =~= ms.drop_first() + later);
        law_nothing_after_shutdown(ms.drop_first(), later);
    }
}

fn error_line(text: &str) -> (r: String)
    ensures
        r@ == error_prefix() + text@,
{
    let prefix = String::from_str("Error: ");
    proof {
        reveal_strlit("Error: ");
        assert(prefix@ =~= error_prefix());
    }
    prefix.concat(text)
}

/// The printer worker's decision for one received message: the items to write, or
/// `None` to stop.
pub fn handle(message: PrinterMessage) -> (r: Option<Vec<ConsoleLine>>)
    ensures
        r is None <==> shows(message) is None,
        r is Some ==> r.unwrap()@.map_values(|c: ConsoleLine| c@) == shows(message).unwrap(),
{
    let mut out: Vec<ConsoleLine> = Vec::new();
    match message {
        PrinterMessage::Shutdown => {
            return None;
        },
        PrinterMessage::JobError(e) => {
            out.push(ConsoleLine::Text(error_line(e.message())));
        },
        PrinterMessage::Error(e) => {
            out.push(ConsoleLine::Text(error_line(e.as_str())));
        },
        PrinterMessage::Line(l) => {
            out.push(ConsoleLine::Text(l));
        },
        PrinterMessage::Lines(ls) => {
            let total = ls.len();
            let ghost all = ls@;
            let mut rest = ls;
            let mut i: usize = 0;
            while rest.len() > 0
                invariant
                    i <= all.len(),
                    all.len() == total,
                    rest@ == all.skip(i as int),
                    rest@.len() == all.len() - i,
                    out@.map_values(|c: ConsoleLine| c@) == texts(all.take(i as int)),
                decreases rest@.len(),
            {
                let l = rest.remove(0);
                assert(l == all[i as int]);
                assert(rest@ =~= all.skip(i + 1));
                let ghost prev = out@;
                out.push(ConsoleLine::Text(l));
                assert(all.take(i + 1) =~= all.take(i as int).push(l));
                assert(out@.map_values(|c: ConsoleLine| c@) =~= prev.map_values(|c: ConsoleLine| c@).push(
                    ConsoleView::Text(l@),
                ));
                assert(texts(all.take(i + 1)) =~= texts(all.take(i as int)).push(ConsoleView::Text(l@)));
                i = i + 1;
            }
            assert(all.take(i as int) =~= all);
            return Some(out);
        },
        PrinterMessage::Row(r) => {
            out.push(ConsoleLine::Row(r));
        },
    }
    assert(out@.map_values(|c: ConsoleLine| c@) =~= shows(message).unwrap());
    Some(out)
}

/// The queue of messages for the console, in the order they were enqueued.
#[derive(Debug)]
pub struct Printer {
    messages: Vec<PrinterMessage>,
}

impl Printer {
    pub closed spec fn queued(&self) -> Seq<PrinterMessage> {
        self.messages@
    }

    pub fn new() -> (r: Printer)
        ensures
            r.queued().len() == 0,
    {
        Printer { messages: Vec::new() }
    }

    /// Asks the worker to stop: nothing enqueued later is shown.
    pub fn shutdown(&mut self)
        ensures
            final(self).queued() == old(self).queued().push(PrinterMessage::Shutdown),
    {
        self.messages.push(PrinterMessage::Shutdown);
    }

    pub fn line(&mut self, line: &str)
        ensures
            final(self).queued().len() == old(self).queued().len() + 1,
            final(self).queued().drop_last() == old(self).queued(),
            final(self).queued().last() matches PrinterMessage::Line(l) && l@ == line@,
    {
        self.messages.push(PrinterMessage::Line(line.to_owned()));
        assert(self.messages@.drop_last() =~= old(self).messages@);
    }

    pub fn lines(&mut self, lines: Vec<String>)
        ensures
            final(self).queued() == old(self).queued().push(PrinterMessage::Lines(lines)),
    {
        self.messages.push(PrinterMessage::Lines(lines));
    }

    pub fn job_error(&mut self, err: JobError)
        ensures
            final(self).queued() == old(self).queued().push(PrinterMessage::JobError(err)),
    {
        self.messages.push(PrinterMessage::JobError(err));
    }

    pub fn error(&mut self, err: &str)
        ensures
            final(self).queued().len() == old(self).queued().len() + 1,
            final(self).queued().drop_last() == old(self).queued(),
            final(self).queued().last() matches PrinterMessage::Error(e) && e@ == err@,
    {
        self.messages.push(PrinterMessage::Error(err.to_owned()));
        assert(self.messages@.drop_last() =~= old(self).messages@);
    }

    /// Shows one row, as a relay of a stage's output does.
    pub fn row(&mut self, row: Row)
        ensures
            final(self).queued() == old(self).queued().push(PrinterMessage::Row(row)),
    {
        self.messages.push(PrinterMessage::Row(row));
    }

    /// Hands the queued messages, oldest first, to whoever drives the console.
    pub fn take_messages(&mut self) -> (r: Vec<PrinterMessage>)
        ensures
            r@ == old(self).queued(),
            final(self).queued().len() == 0,
    {
        let mut taken: Vec<PrinterMessage> = Vec::new();
        std::mem::swap(&mut taken, &mut self.messages);
        taken
    }
}

/// Drives the worker over messages in receive order and collects what it writes.
pub fn render(messages: Vec<PrinterMessage>) -> (r: Vec<ConsoleLine>)
    ensures
        r@.map_values(|c: ConsoleLine| c@) == console(messages@),
{
    let total = messages.len();
    let ghost all = messages@;
    let mut rest = messages;
    let mut out: Vec<ConsoleLine> = Vec::new();
    let mut i: usize = 0;
    assert(all.skip(0) =~= all);
    assert(out@.map_values(|c: ConsoleLine| c@) + console(all) =~= console(all));
    while rest.len() > 0
        invariant
            i <= all.len(),
            all.len() == total,
            all == messages@,
            rest@ == all.skip(i as int),
            rest@.len() == all.len() - i,
            out@.map_values(|c: ConsoleLine| c@) + console(all.skip(i as int)) == console(all),
        decreases rest@.len(),
    {
        let m = rest.remove(0);
        assert(m == all[i as int]);
        assert(rest@ =~= all.skip(i + 1));
        assert(all.skip(i as int).drop_first() =~= all.skip(i + 1));
        assert(all.skip(i as int)[0] == m);
        match handle(m) {
            None => {
                assert(shows(m) is None);
                assert(all.skip(i as int).len() > 0);
                assert(console(all.skip(i as int)) =~= Seq::<ConsoleView>::empty());

                assert(out@.map_values(|c: ConsoleLine| c@) + Seq::<ConsoleView>::empty()
                    =~= out@.map_values(|c: ConsoleLine| c@));
                return out;
            },
            Some(items) => {
                let ghost prev = out@;
                let mut items = items;
                out.append(&mut items);
                assert(out@.map_values(|c: ConsoleLine| c@) =~= prev.map_values(|c: ConsoleLine| c@)
                    + shows(m).unwrap());
                assert(out@.map_values(|c: ConsoleLine| c@) + console(all.skip(i + 1))
                    =~= prev.map_values(|c: ConsoleLine| c@) + console(all.skip(i as int)));
            },
        }
        i = i + 1;
    }
    assert(all.skip(i as int) =~= Seq::<PrinterMessage>::empty());
    assert(out@.map_values(|c: ConsoleLine| c@) + Seq::<ConsoleView>::empty() =~= out@.map_values(
        |c: ConsoleLine| c@,
    ));
    out
}

} // verus!
