use vstd::prelude::*;
use crate::data::{ColumnType, Row, ValueType};
use crate::errors::{JobError, JobResult};

verus! {

/// A schema as plain values: its (name, type) pairs.
pub open spec fn schema_view(s: Seq<ColumnType>) -> Seq<(Seq<char>, ValueType)> {
    s.map_values(|c: ColumnType| (c.name@, c.cell_type))
}

/// Whether two schemas hold the same (name, type) pairs in the same order.
pub fn same_schema(a: &Vec<ColumnType>, b: &Vec<ColumnType>) -> (r: bool)
    ensures
        r == (schema_view(a@) == schema_view(b@)),
{
    if a.len() != b.len() {
        assert(schema_view(a@).len() != schema_view(b@).len());
        return false;
    }
    let mut i: usize = 0;
    while i < a.len()
        invariant
            a@.len() == b@.len(),
            i <= a@.len(),
            forall|j: int| 0 <= j < i ==> schema_view(a@)[j] == schema_view(b@)[j],
        decreases a@.len() - i,
    {
        if !(a[i].name == b[i].name) || a[i].cell_type != b[i].cell_type {
            assert(schema_view(a@)[i as int] != schema_view(b@)[i as int]);
            return false;
        }
        i = i + 1;
    }
    assert(schema_view(a@) =~= schema_view(b@));
    true
}

/// The consumer side of a stream: a schema and the rows not yet received, in send order.
#[derive(Debug)]
pub struct InputStream {
    schema: Vec<ColumnType>,
    rows: Vec<Row>,
}

/// Every row has one cell per column.
pub open spec fn rows_fit(rows: Seq<Row>, width: int) -> bool {
    forall|i: int| 0 <= i < rows.len() ==> (#[trigger] rows[i]).cells@.len() == width
}

impl InputStream {
    pub closed spec fn spec_schema(&self) -> Seq<ColumnType> {
        self.schema@
    }

    pub closed spec fn spec_rows(&self) -> Seq<Row> {
        self.rows@
    }

    pub open spec fn wf(&self) -> bool {
        rows_fit(self.spec_rows(), self.spec_schema().len() as int)
    }

    /// A stream that will yield `rows`, in order, under `schema`.
    pub fn new(schema: Vec<ColumnType>, rows: Vec<Row>) -> (r: InputStream)
        requires
            rows_fit(rows@, schema@.len() as int),
        ensures
            r.wf(),
            r.spec_schema() == schema@,
            r.spec_rows() == rows@,
    {
        InputStream { schema, rows }
    }

    /// A stream that is exhausted from the start.
    pub fn empty() -> (r: InputStream)
        ensures
            r.wf(),
            r.spec_schema().len() == 0,
            r.spec_rows().len() == 0,
    {
        InputStream { schema: Vec::new(), rows: Vec::new() }
    }

    /// The schema that rows of this stream follow.
    pub fn get_type(&self) -> (r: &Vec<ColumnType>)
        ensures
            r@ == self.spec_schema(),
    {
        &self.schema
    }

    /// The next row, or `None` once the stream is exhausted.
    pub fn recv(&mut self) -> (r: Option<Row>)
        ensures
            final(self).spec_schema() == old(self).spec_schema(),
            old(self).spec_rows().len() == 0 ==> r is None && final(self).spec_rows().len() == 0,
            old(self).spec_rows().len() > 0 ==> r == Some(old(self).spec_rows()[0])
                && final(self).spec_rows() == old(self).spec_rows().drop_first(),
            old(self).wf() ==> final(self).wf(),
    {
        if self.rows.len() == 0 {
            None
        } else {
            let row = self.rows.remove(0);
            assert(self.rows@ =~= old(self).rows@.drop_first());
            Some(row)
        }
    }
}

/// The producer side of a stream: the schema its consumer expects, the schema it was
/// committed to, and the rows sent so far.
#[derive(Debug)]
pub struct OutputStream {
    declared: Option<Vec<ColumnType>>,
    schema: Option<Vec<ColumnType>>,
    rows: Vec<Row>,
    connected: bool,
}

impl OutputStream {
    pub closed spec fn spec_declared(&self) -> Option<Seq<ColumnType>> {
        match self.declared {
            Some(d) => Some(d@),
            None => None,
        }
    }

    pub closed spec fn spec_schema(&self) -> Option<Seq<ColumnType>> {
        match self.schema {
            Some(d) => Some(d@),
            None => None,
        }
    }

    pub closed spec fn spec_rows(&self) -> Seq<Row> {
        self.rows@
    }

    pub closed spec fn spec_connected(&self) -> bool {
        self.connected
    }

    /// The schema that `initialize` must be given: the committed one, else the declared one.
    pub open spec fn expected(&self) -> Option<Seq<ColumnType>> {
        if self.spec_schema() is Some {
            self.spec_schema()
        } else {
            self.spec_declared()
        }
    }

    /// A stream whose consumer accepts any schema.
    pub fn new() -> (r: OutputStream)
        ensures
            r.spec_declared() is None,
            r.spec_schema() is None,
            r.spec_rows().len() == 0,
            r.spec_connected(),
    {
        OutputStream { declared: None, schema: None, rows: Vec::new(), connected: true }
    }

    /// A stream whose consumer expects rows of `declared`.
    pub fn typed(declared: Vec<ColumnType>) -> (r: OutputStream)
        ensures
            r.spec_declared() == Some(declared@),
            r.spec_schema() is None,
            r.spec_rows().len() == 0,
            r.spec_connected(),
    {
        OutputStream { declared: Some(declared), schema: None, rows: Vec::new(), connected: true }
    }

    /// The consumer goes away: later sends fail.
    pub fn disconnect(&mut self)
        ensures
            final(self).spec_declared() == old(self).spec_declared(),
            final(self).spec_schema() == old(self).spec_schema(),
            final(self).spec_rows() == old(self).spec_rows(),
            !final(self).spec_connected(),
    {
        self.connected = false;
    }

    /// The rows sent so far, in send order.
    pub fn rows(&self) -> (r: &Vec<Row>)
        ensures
            r@ == self.spec_rows(),
    {
        &self.rows
    }

    /// Hands over the rows sent so far.
    pub fn into_rows(self) -> (r: Vec<Row>)
        ensures
            r@ == self.spec_rows(),
    {
        self.rows
    }

    /// Commits the stream to `schema`; fails where it differs from the schema expected.
    pub fn initialize(&mut self, schema: Vec<ColumnType>) -> (r: JobResult<()>)
        ensures
            final(self).spec_declared() == old(self).spec_declared(),
            final(self).spec_rows() == old(self).spec_rows(),
            final(self).spec_connected() == old(self).spec_connected(),
            r is Err <==> (old(self).expected() is Some && schema_view(old(self).expected().unwrap())
                != schema_view(schema@)),
            r is Err ==> r == Err::<(), JobError>(JobError::SchemaMismatch)
                && final(self).spec_schema() == old(self).spec_schema(),
            r is Ok ==> final(self).spec_schema() == Some(schema@),
    {
        let mismatch = match &self.schema {
            Some(s) => !same_schema(s, &schema),
            None => match &self.declared {
                Some(d) => !same_schema(d, &schema),
                None => false,
            },
        };
        if mismatch {
            Err(JobError::SchemaMismatch)
        } else {
            self.schema = Some(schema);
            Ok(())
        }
    }

    /// Sends one row; fails where the consumer is gone, or where the row does not fit
    /// the committed schema.
    pub fn send(&mut self, row: Row) -> (r: JobResult<()>)
        ensures
            final(self).spec_declared() == old(self).spec_declared(),
            final(self).spec_schema() == old(self).spec_schema(),
            final(self).spec_connected() == old(self).spec_connected(),
            !old(self).spec_connected() ==> r == Err::<(), JobError>(JobError::StreamDisconnected),
            old(self).spec_connected() && (old(self).spec_schema() is None
                || old(self).spec_schema().unwrap().len() != row.cells@.len()) ==> r == Err::<
                (),
                JobError,
            >(JobError::SchemaMismatch),
            r is Ok <==> old(self).spec_connected() && old(self).spec_schema() is Some
                && old(self).spec_schema().unwrap().len() == row.cells@.len(),
            r is Ok ==> final(self).spec_rows() == old(self).spec_rows().push(row),
            r is Err ==> final(self).spec_rows() == old(self).spec_rows(),
    {
        if !self.connected {
            return Err(JobError::StreamDisconnected);
        }
        let fits = match &self.schema {
            Some(s) => s.len() == row.cells.len(),
            None => false,
        };
        if !fits {
            return Err(JobError::SchemaMismatch);
        }
        self.rows.push(row);
        Ok(())
    }
}

} // verus!
