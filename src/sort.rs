use vstd::prelude::*;
use vstd::string::StrSliceExecFns;
use crate::data::{Argument, Cell, ColumnType, Row};
use crate::errors::{JobError, JobResult};
use crate::stream::{InputStream, OutputStream, rows_fit, schema_view};

verus! {

broadcast use vstd::seq_lib::group_to_multiset_ensures;

/// Lexicographic order on texts, by code point.
pub open spec fn text_lt(a: Seq<char>, b: Seq<char>) -> bool
    decreases a.len(),
{
    if a.len() == 0 {
        b.len() > 0
    } else if b.len() == 0 {
        false
    } else if a[0] != b[0] {
        (a[0] as u32) < (b[0] as u32)
    } else {
        text_lt(a.drop_first(), b.drop_first())
    }
}

/// Two cells have an order between them: both integers, both booleans or both texts.
pub open spec fn comparable(a: Cell, b: Cell) -> bool {
    (a is Integer && b is Integer) || (a is Bool && b is Bool) || (a is Text && b is Text)
}

/// The natural strict order of cells of one kind.
pub open spec fn cell_lt(a: Cell, b: Cell) -> bool {
    match (a, b) {
        (Cell::Integer(x), Cell::Integer(y)) => x < y,
        (Cell::Bool(x), Cell::Bool(y)) => !x && y,
        (Cell::Text(x), Cell::Text(y)) => text_lt(x@, y@),
        _ => false,
    }
}

pub proof fn lemma_text_lt_asymmetric(a: Seq<char>, b: Seq<char>)
    ensures
        text_lt(a, b) ==> !text_lt(b, a),
    decreases a.len(),
{
    if a.len() > 0 && b.len() > 0 && a[0] == b[0] {
        lemma_text_lt_asymmetric(a.drop_first(), b.drop_first());
    }
}

/// The key cell of a row.
pub open spec fn key(r: Row, col: int) -> Cell {
    r.cells@[col]
}

/// Every two rows of `rows` have comparable keys.
pub open spec fn all_comparable(rows: Seq<Row>, col: int) -> bool {
    forall|i: int, j: int| 0 <= i < j < rows.len() ==> comparable(key(rows[i], col), key(rows[j], col))
}

/// No row's key is smaller than the key of the row before it.
pub open spec fn sorted_by(rows: Seq<Row>, col: int) -> bool {
    forall|i: int| 0 <= i < rows.len() - 1 ==> !cell_lt(key(#[trigger] rows[i + 1], col), key(rows[i], col))
}

/// Where `r` goes among `s`: before the first row whose key is greater than its own,
/// so that it follows every row of an equal key.
pub open spec fn insert_position(s: Seq<Row>, r: Row, col: int) -> int
    decreases s.len(),
{
    if s.len() == 0 || cell_lt(key(r, col), key(s[0], col)) {
        0
    } else {
        1 + insert_position(s.drop_first(), r, col)
    }
}

/// The rows ordered by key, rows of equal keys in their input order.
pub open spec fn stable_sorted(rows: Seq<Row>, col: int) -> Seq<Row>
    decreases rows.len(),
{
    if rows.len() == 0 {
        rows
    } else {
        let s = stable_sorted(rows.drop_last(), col);
        s.insert(insert_position(s, rows.last(), col), rows.last())
    }
}

/// The name of the sort key argument.
pub open spec fn key_word() -> Seq<char> {
    seq!['k', 'e', 'y']
}

/// The column name that the arguments give as sort key: one argument, named `key`,
/// holding a text or a field name.
pub open spec fn sort_key(args: Seq<Argument>) -> Option<Seq<char>> {
    if args.len() == 1 && args[0].name is Some && args[0].name.unwrap()@ == key_word() {
        match args[0].cell {
            Cell::Text(s) => Some(s@),
            Cell::Field(s) => Some(s@),
            _ => None,
        }
    } else {
        None
    }
}

/// The stage's resolved arguments: the sort column and the stream to read.
pub struct Config {
    sort_column_idx: usize,
    input: InputStream,
}

impl Config {
    pub closed spec fn column(&self) -> int {
        self.sort_column_idx as int
    }

    pub closed spec fn input(&self) -> InputStream {
        self.input
    }

    pub open spec fn wf(&self) -> bool {
        self.input().wf() && 0 <= self.column() < self.input().spec_schema().len()
    }
}

/// The index of the first column called `name`.
pub fn find_field(name: &String, schema: &Vec<ColumnType>) -> (r: JobResult<usize>)
    ensures
        r is Ok ==> r.unwrap() < schema@.len() && schema@[r.unwrap() as int].name@ == name@
            && forall|j: int| 0 <= j < r.unwrap() ==> schema@[j].name@ != name@,
        r is Err <==> forall|j: int| 0 <= j < schema@.len() ==> schema@[j].name@ != name@,
        r is Err ==> r == Err::<usize, JobError>(JobError::SchemaMismatch),
{
    let mut i: usize = 0;
    while i < schema.len()
        invariant
            i <= schema@.len(),
            forall|j: int| 0 <= j < i ==> schema@[j].name@ != name@,
        decreases schema@.len() - i,
    {
        if schema[i].name == *name {
            return Ok(i);
        }
        i = i + 1;
    }
    Err(JobError::SchemaMismatch)
}

/// Resolves the sort key against the input's schema, before any row is read.
pub fn parse(arguments: Vec<Argument>, input: InputStream) -> (r: JobResult<Config>)
    requires
        input.wf(),
    ensures
        sort_key(arguments@) is None ==> r == Err::<Config, JobError>(JobError::ArgumentError),
        sort_key(arguments@) is Some ==> {
            let k = sort_key(arguments@).unwrap();
            let s = input.spec_schema();
            &&& r is Err <==> forall|j: int| 0 <= j < s.len() ==> s[j].name@ != k
            &&& r is Err ==> r == Err::<Config, JobError>(JobError::SchemaMismatch)
            &&& r is Ok ==> {
                let c = r.unwrap();
                &&& c.wf()
                &&& c.input() == input
                &&& s[c.column()].name@ == k
                &&& forall|j: int| 0 <= j < c.column() ==> s[j].name@ != k
            }
        },
{
    if arguments.len() != 1 {
        return Err(JobError::ArgumentError);
    }
    let key = "key".to_owned();
    proof {
        reveal_strlit("key");
        assert(key@ =~= key_word());
    }
    let arg = &arguments[0];
    match &arg.name {
        Some(name) => {
            if !(*name == key) {
                return Err(JobError::ArgumentError);
            }
            let column = match &arg.cell {
                Cell::Text(s) => s,
                Cell::Field(s) => s,
                _ => {
                    return Err(JobError::ArgumentError);
                },
            };
            let sort_column_idx = find_field(column, input.get_type())?;
            Ok(Config { sort_column_idx, input })
        },
        None => Err(JobError::ArgumentError),
    }
}

fn text_less(a: &String, b: &String) -> (r: bool)
    ensures
        r == text_lt(a@, b@),
{
    let la = a.as_str().unicode_len();
    let lb = b.as_str().unicode_len();
    let mut i: usize = 0;
    assert(a@.skip(0) =~= a@);
    assert(b@.skip(0) =~= b@);
    while i < la && i < lb
        invariant
            la == a@.len(),
            lb == b@.len(),
            i <= la,
            i <= lb,
            text_lt(a@, b@) == text_lt(a@.skip(i as int), b@.skip(i as int)),
        decreases la - i,
    {
        let x = a.as_str().get_char(i);
        let y = b.as_str().get_char(i);
        assert(a@.skip(i as int)[0] == x);
        assert(b@.skip(i as int)[0] == y);
        if x != y {
            return (x as u32) < (y as u32);
        }
        assert(a@.skip(i as int).drop_first() =~= a@.skip(i + 1));
        assert(b@.skip(i as int).drop_first() =~= b@.skip(i + 1));
        i = i + 1;
    }
    i == la && i < lb
}

fn cell_less(a: &Cell, b: &Cell) -> (r: bool)
    ensures
        r == cell_lt(*a, *b),
{
    match (a, b) {
        (Cell::Integer(x), Cell::Integer(y)) => *x < *y,
        (Cell::Bool(x), Cell::Bool(y)) => !*x && *y,
        (Cell::Text(x), Cell::Text(y)) => text_less(x, y),
        _ => false,
    }
}

fn same_kind(a: &Cell, b: &Cell) -> (r: bool)
    ensures
        r == comparable(*a, *b),
{
    match (a, b) {
        (Cell::Integer(_), Cell::Integer(_)) => true,
        (Cell::Bool(_), Cell::Bool(_)) => true,
        (Cell::Text(_), Cell::Text(_)) => true,
        _ => false,
    }
}

/// Whether every two rows have comparable keys.
fn keys_comparable(rows: &Vec<Row>, col: usize) -> (r: bool)
    requires
        forall|i: int| 0 <= i < rows@.len() ==> col < (#[trigger] rows@[i]).cells@.len(),
    ensures
        r == all_comparable(rows@, col as int),
{
    if rows.len() < 2 {
        return true;
    }
    let mut i: usize = 1;
    while i < rows.len()
        invariant
            1 <= i <= rows@.len(),
            forall|k: int| 0 <= k < rows@.len() ==> col < (#[trigger] rows@[k]).cells@.len(),
            forall|k: int| 1 <= k < i ==> comparable(key(rows@[0], col as int), key(#[trigger] rows@[k], col as int)),
        decreases rows@.len() - i,
    {
        if !same_kind(&rows[0].cells[col], &rows[i].cells[col]) {
            return false;
        }
        i = i + 1;
    }
    assert forall|a: int, b: int| 0 <= a < b < rows@.len() implies comparable(
        key(rows@[a], col as int),
        key(rows@[b], col as int),
    ) by {
        assert(comparable(key(rows@[0], col as int), key(rows@[b], col as int)));
        if a > 0 {
            assert(comparable(key(rows@[0], col as int), key(rows@[a], col as int)));
        }
    }
    true
}

/// Orders `rows` by their key cells, keeping rows of equal keys in their order.
fn sort_rows(rows: Vec<Row>, col: usize) -> (r: Vec<Row>)
    requires
        forall|i: int| 0 <= i < rows@.len() ==> col < (#[trigger] rows@[i]).cells@.len(),
    ensures
        r@ == stable_sorted(rows@, col as int),
        sorted_by(r@, col as int),
        r@.to_multiset() == rows@.to_multiset(),
        forall|i: int| 0 <= i < r@.len() ==> col < (#[trigger] r@[i]).cells@.len(),
{
    let ghost all = rows@;
    let total = rows.len();
    let mut rest = rows;
    let mut sorted: Vec<Row> = Vec::new();
    let mut n: usize = 0;
    assert(all.take(0) =~= Seq::<Row>::empty());
    while rest.len() > 0
        invariant
            n <= all.len(),
            rest@ == all.skip(n as int),
            rest@.len() == all.len() - n,
            all.len() == total,
            sorted@.to_multiset() == all.take(n as int).to_multiset(),
            sorted@ == stable_sorted(all.take(n as int), col as int),
            sorted_by(sorted@, col as int),
            forall|i: int| 0 <= i < all.len() ==> col < (#[trigger] all[i]).cells@.len(),
            forall|i: int| 0 <= i < sorted@.len() ==> col < (#[trigger] sorted@[i]).cells@.len(),
        decreases rest@.len(),
    {
        let row = rest.remove(0);
        assert(row == all[n as int]);
        assert(rest@ =~= all.skip(n + 1));
        let mut p: usize = 0;
        assert(sorted@.skip(0) =~= sorted@);
        while p < sorted.len() && !cell_less(&row.cells[col], &sorted[p].cells[col])
            invariant
                p <= sorted@.len(),
                col < row.cells@.len(),
                forall|i: int| 0 <= i < sorted@.len() ==> col < (#[trigger] sorted@[i]).cells@.len(),
                forall|i: int| 0 <= i < p ==> !cell_lt(key(row, col as int), key(#[trigger] sorted@[i], col as int)),
                insert_position(sorted@, row, col as int) == p + insert_position(sorted@.skip(p as int), row, col as int),
            decreases sorted@.len() - p,
        {
            assert(sorted@.skip(p as int).drop_first() =~= sorted@.skip(p + 1));
            assert(sorted@.skip(p as int)[0] == sorted@[p as int]);
            p = p + 1;
        }
        let ghost before = sorted@;
        proof {
            if p < before.len() {
                assert(before.skip(p as int)[0] == before[p as int]);
            }
            assert(insert_position(before, row, col as int) == p);
            assert(all.take(n + 1).drop_last() =~= all.take(n as int));
            assert(all.take(n + 1).last() == row);
        }
        proof {
            if p < before.len() {
                assert(cell_lt(key(row, col as int), key(before[p as int], col as int)));
                let (x, y) = (key(row, col as int), key(before[p as int], col as int));
                if let (Cell::Text(a), Cell::Text(b)) = (x, y) {
                    lemma_text_lt_asymmetric(a@, b@);
                }
            }
        }
        sorted.insert(p, row);
        proof {
            let t = sorted@;
            assert(t.remove(p as int) =~= before);
            assert(t[p as int] == row);
            assert(t.to_multiset() =~= before.to_multiset().insert(row));
            assert(all.take(n + 1) =~= all.take(n as int).push(row));
            assert forall|i: int| 0 <= i < t.len() - 1 implies !cell_lt(
                key(#[trigger] t[i + 1], col as int),
                key(t[i], col as int),
            ) by {
                if i + 1 < p {
                    assert(t[i] == before[i] && t[i + 1] == before[i + 1]);
                } else if i + 1 == p {
                    assert(t[i] == before[i] && t[i + 1] == row);
                } else if i == p {
                    assert(t[i] == row && t[i + 1] == before[i]);
                    assert(cell_lt(key(row, col as int), key(before[p as int], col as int)));
                } else {
                    assert(t[i] == before[i - 1] && t[i + 1] == before[i]);
                    assert(before[(i - 1) + 1] == before[i]);
                }
            }
            assert forall|i: int| 0 <= i < t.len() implies col < (#[trigger] t[i]).cells@.len() by {
                if i < p {
                    assert(t[i] == before[i]);
                } else if i > p {
                    assert(t[i] == before[i - 1]);
                }
            }
        }
        n = n + 1;
    }
    assert(all.take(n as int) =~= all);
    sorted
}

/// What running the sort stage over `rows`, keyed on column `col`, does to an output
/// that held `before`: `after` is what the output holds next.
pub open spec fn run_outcome(
    rows: Seq<Row>,
    col: int,
    before: Seq<Row>,
    connected: bool,
    r: JobResult<()>,
    after: Seq<Row>,
) -> bool {
    if !all_comparable(rows, col) {
        r == Err::<(), JobError>(JobError::IncomparableValues) && after == before
    } else if !connected && rows.len() > 0 {
        r == Err::<(), JobError>(JobError::StreamDisconnected) && after == before
    } else {
        &&& r is Ok
        &&& after.len() == before.len() + rows.len()
        &&& after.take(before.len() as int) == before
        &&& after.skip(before.len() as int) == stable_sorted(rows, col)
        &&& sorted_by(after.skip(before.len() as int), col)
        &&& after.skip(before.len() as int).to_multiset() == rows.to_multiset()
    }
}

/// Reads every row of the input, orders the rows by the key column and sends them on.
pub fn run(config: Config, output: &mut OutputStream) -> (r: JobResult<()>)
    requires
        config.wf(),
        old(output).spec_schema() is Some,
        old(output).spec_schema().unwrap().len() == config.input().spec_schema().len(),
    ensures
        final(output).spec_declared() == old(output).spec_declared(),
        final(output).spec_schema() == old(output).spec_schema(),
        final(output).spec_connected() == old(output).spec_connected(),
        run_outcome(
            config.input().spec_rows(),
            config.column(),
            old(output).spec_rows(),
            old(output).spec_connected(),
            r,
            final(output).spec_rows(),
        ),
{
    let col = config.sort_column_idx;
    let mut input = config.input;
    let ghost all = input.spec_rows();
    let ghost width = input.spec_schema().len();
    let mut res: Vec<Row> = Vec::new();
    loop
        invariant
            input.wf(),
            input.spec_schema().len() == width,
            col < width,
            res@ + input.spec_rows() == all,
            rows_fit(res@, width as int),
        ensures
            res@ == all,
            rows_fit(res@, width as int),
        decreases input.spec_rows().len(),
    {
        let ghost pending = input.spec_rows();
        match input.recv() {
            Some(row) => {
                res.push(row);
                assert(res@ + input.spec_rows() =~= all);
            },
            None => {
                assert(res@ + input.spec_rows() =~= res@);
                break;
            },
        }
    }
    if !keys_comparable(&res, col) {
        return Err(JobError::IncomparableValues);
    }
    let sorted = sort_rows(res, col);
    let total = sorted.len();
    let ghost out = sorted@;
    proof {
        assert(out.to_multiset().len() == out.len());
        assert(all.to_multiset().len() == all.len());
        assert forall|i: int| 0 <= i < out.len() implies (#[trigger] out[i]).cells@.len() == width by {
            assert(out.to_multiset().count(out[i]) > 0);
            assert(all.contains(out[i]));
        }
    }
    let ghost start = output.spec_rows();
    let mut rest = sorted;
    let mut k: usize = 0;
    while rest.len() > 0
        invariant
            k <= out.len(),
            out.len() == total,
            out.len() == all.len(),
            all_comparable(all, col as int),
            all == config.input().spec_rows(),
            col == config.column(),
            out.to_multiset() == all.to_multiset(),
            out == stable_sorted(all, col as int),
            sorted_by(out, col as int),
            rest@ == out.skip(k as int),
            rest@.len() == out.len() - k,
            rows_fit(out, width as int),
            output.spec_schema() is Some,
            output.spec_schema().unwrap().len() == width,
            output.spec_declared() == old(output).spec_declared(),
            output.spec_schema() == old(output).spec_schema(),
            output.spec_connected() == old(output).spec_connected(),
            output.spec_rows() == start + out.take(k as int),
            start == old(output).spec_rows(),
            k > 0 ==> output.spec_connected(),
        decreases rest@.len(),
    {
        let row = rest.remove(0);
        assert(row == out[k as int]);
        assert(rest@ =~= out.skip(k + 1));
        let sent = output.send(row);
        if sent.is_err() {
            assert(out.take(0) =~= Seq::<Row>::empty());
            assert(start + out.take(0) =~= start);
            return sent;
        }
        assert(out.take(k + 1) =~= out.take(k as int).push(out[k as int]));
        k = k + 1;
    }
    proof {
        let after = output.spec_rows();
        assert(out.take(k as int) =~= out);
        assert(after.take(start.len() as int) =~= start);
        assert(after.skip(start.len() as int) =~= out);
        if !output.spec_connected() {
            assert(out.len() == 0);
            assert(all.to_multiset().len() == 0);
        }
    }
    Ok(())
}

fn copy_schema(s: &Vec<ColumnType>) -> (r: Vec<ColumnType>)
    ensures
        schema_view(r@) == schema_view(s@),
{
    let mut r: Vec<ColumnType> = Vec::new();
    let mut i: usize = 0;
    while i < s.len()
        invariant
            i <= s@.len(),
            schema_view(r@) == schema_view(s@.take(i as int)),
        decreases s@.len() - i,
    {
        let ghost prev = r@;
        r.push(ColumnType { name: s[i].name.clone(), cell_type: s[i].cell_type });
        assert(schema_view(r@) =~= schema_view(prev).push((s@[i as int].name@, s@[i as int].cell_type)));
        assert(s@.take(i + 1) =~= s@.take(i as int).push(s@[i as int]));
        assert(schema_view(r@) =~= schema_view(s@.take(i + 1)));
        i = i + 1;
    }
    assert(s@.take(i as int) =~= s@);
    r
}

/// What the sort stage does with sort key `key`, an input of schema `s` holding `rows`,
/// and an output that expects `expected`, holds `before` and then `after`.
pub open spec fn sort_outcome(
    key: Option<Seq<char>>,
    s: Seq<ColumnType>,
    rows: Seq<Row>,
    expected: Option<Seq<ColumnType>>,
    before: Seq<Row>,
    connected: bool,
    r: JobResult<()>,
    after: Seq<Row>,
) -> bool {
    if expected is Some && schema_view(expected.unwrap()) != schema_view(s) {
        r == Err::<(), JobError>(JobError::SchemaMismatch) && after == before
    } else if key is None {
        r == Err::<(), JobError>(JobError::ArgumentError) && after == before
    } else if forall|j: int| 0 <= j < s.len() ==> s[j].name@ != key.unwrap() {
        r == Err::<(), JobError>(JobError::SchemaMismatch) && after == before
    } else {
        exists|c: int|
            0 <= c < s.len() && s[c].name@ == key.unwrap() && (forall|j: int|
                0 <= j < c ==> s[j].name@ != key.unwrap()) && #[trigger] run_outcome(
                rows,
                c,
                before,
                connected,
                r,
                after,
            )
    }
}

/// The sort stage's two phases: commit the output to the input's schema, resolve the
/// arguments, then run.
pub fn compile_and_run(arguments: Vec<Argument>, input: InputStream, output: &mut OutputStream) -> (r:
    JobResult<()>)
    requires
        input.wf(),
    ensures
        final(output).spec_declared() == old(output).spec_declared(),
        final(output).spec_connected() == old(output).spec_connected(),
        sort_outcome(
            sort_key(arguments@),
            input.spec_schema(),
            input.spec_rows(),
            old(output).expected(),
            old(output).spec_rows(),
            old(output).spec_connected(),
            r,
            final(output).spec_rows(),
        ),
{
    let schema = copy_schema(input.get_type());
    proof {
        assert(schema_view(schema@).len() == schema@.len());
        assert(schema_view(input.spec_schema()).len() == input.spec_schema().len());
    }
    output.initialize(schema)?;
    let config = parse(arguments, input)?;
    run(config, output)
}

} // verus!
