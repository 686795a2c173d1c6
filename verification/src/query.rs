//! Queries: fetching batches of rows and walking through them.
//!
//! A query decides when a fetch is due and which row comes next; the caller
//! runs each native fetch and tells the query what it delivered.

use crate::buffer::{descriptor_widths, region_fits, ResultBuffer, ResultSet};
use crate::statement::{Binding, StatementError};
use crate::types::TypeDescriptor;
use crate::values::CodecError;
use vstd::prelude::*;

verus! {

/// The shape of the result rows of a statement, and how a fetched row
/// becomes a value of the caller's choice.
pub trait ResultsProvider {
    /// What a row is decoded to.
    type Row;

    /// The result columns, in declaration order.
    spec fn spec_descriptors(&self) -> Seq<TypeDescriptor>;

    /// Whether `value` is what the row at position `row` of `buffer`
    /// decodes to.
    spec fn is_result(&self, buffer: &ResultBuffer, row: int, value: &Self::Row) -> bool;

    /// The result columns, in declaration order.
    fn sql_descriptors(&self) -> (descriptors: Vec<TypeDescriptor>)
        ensures
            descriptors@ == self.spec_descriptors(),
    ;

    /// Decodes one fetched row.
    fn gen_result(&self, buffer: &ResultBuffer, rs: &ResultSet) -> (row: Self::Row)
        requires
            buffer.wf(),
            buffer.descriptors() == self.spec_descriptors(),
            buffer.is_row(*rs, rs.row as int),
        ensures
            self.is_result(buffer, rs.row as int, &row),
    ;
}

/// Where a walk through the rows of a query stands.
#[derive(Clone, Copy, Debug, PartialEq, Eq, Structural)]
pub enum QueryState {
    /// Nothing is fetched yet.
    Ready,
    /// A batch of so many rows is there, and the row at the given position
    /// was the last one handed out.
    HasBatch(usize, usize),
    /// All rows were handed out.
    Exhausted,
}

/// What is to be done next.
#[derive(Clone, Copy, Debug, PartialEq, Eq, Structural)]
pub enum Step {
    /// Run a native fetch and report what it delivered.
    Fetch,
    /// Decode the row at this position of the current batch.
    Row(usize),
    /// There are no more rows.
    Done,
}

/// A single pass over the rows of a query, batch by batch.
#[derive(Clone, Copy, Debug, PartialEq, Eq, Structural)]
pub struct QueryIterator {
    /// Where the walk stands.
    pub state: QueryState,
    /// Whether the cursor has signalled the end of the data.
    pub drained: bool,
}

impl QueryIterator {
    /// The position inside a batch lies inside the batch.
    pub open spec fn wf(self) -> bool {
        self.state matches QueryState::HasBatch(n, i) ==> i < n
    }

    /// What [`QueryIterator::next`] does: inside a batch it moves on to the
    /// next row; at the end of a batch it asks for a fetch, or is done when
    /// the cursor has signalled the end of the data; before the first batch
    /// it asks for a fetch; and once exhausted it stays so.
    pub open spec fn spec_next(self) -> (QueryIterator, Step) {
        match self.state {
            QueryState::Ready => (self, Step::Fetch),
            QueryState::HasBatch(n, i) => if i + 1 < n {
                (
                    QueryIterator {
                        state: QueryState::HasBatch(n, (i + 1) as usize),
                        drained: self.drained,
                    },
                    Step::Row((i + 1) as usize),
                )
            } else if self.drained {
                (QueryIterator { state: QueryState::Exhausted, drained: true }, Step::Done)
            } else {
                (self, Step::Fetch)
            },
            QueryState::Exhausted => (self, Step::Done),
        }
    }

    /// What [`QueryIterator::fetched`] does: a fetch without rows exhausts
    /// the walk; a fetch with rows begins a batch at its first row. A walk
    /// that is exhausted stays so.
    pub open spec fn spec_fetched(self, rows: usize, end_of_data: bool) -> (QueryIterator, Step) {
        if self.state is Exhausted {
            (self, Step::Done)
        } else if rows == 0 {
            (QueryIterator { state: QueryState::Exhausted, drained: true }, Step::Done)
        } else {
            (
                QueryIterator { state: QueryState::HasBatch(rows, 0), drained: end_of_data },
                Step::Row(0),
            )
        }
    }

    /// A walk that has not fetched yet.
    pub fn new() -> (it: QueryIterator)
        ensures
            it.state is Ready,
            !it.drained,
            it.wf(),
    {
        QueryIterator { state: QueryState::Ready, drained: false }
    }

    /// Moves on and says what is to be done next.
    pub fn next(&mut self) -> (step: Step)
        requires
            old(self).wf(),
        ensures
            final(self).wf(),
            (*final(self), step) == old(self).spec_next(),
    {
        match self.state {
            QueryState::Ready => Step::Fetch,
            QueryState::HasBatch(n, i) => {
                if i + 1 < n {
                    self.state = QueryState::HasBatch(n, i + 1);
                    Step::Row(i + 1)
                } else if self.drained {
                    self.state = QueryState::Exhausted;
                    Step::Done
                } else {
                    Step::Fetch
                }
            },
            QueryState::Exhausted => Step::Done,
        }
    }

    /// Takes note of what a native fetch delivered and says what is to be
    /// done next.
    pub fn fetched(&mut self, rows: usize, end_of_data: bool) -> (step: Step)
        requires
            old(self).wf(),
        ensures
            final(self).wf(),
            (*final(self), step) == old(self).spec_fetched(rows, end_of_data),
    {
        match self.state {
            QueryState::Exhausted => Step::Done,
            _ => {
                if rows == 0 {
                    self.state = QueryState::Exhausted;
                    self.drained = true;
                    Step::Done
                } else {
                    self.state = QueryState::HasBatch(rows, 0);
                    self.drained = end_of_data;
                    Step::Row(0)
                }
            },
        }
    }
}

/// A statement's result side: the shape of the rows, the cells of one
/// batch, and the walk through the rows.
pub struct Query<R> {
    provider: R,
    results: ResultBuffer,
    iterator: QueryIterator,
}

impl<R: ResultsProvider> Query<R> {
    /// The provider of the result shape.
    pub closed spec fn provider(&self) -> R {
        self.provider
    }

    /// The cells of the current batch.
    pub closed spec fn results(&self) -> ResultBuffer {
        self.results
    }

    /// Where the walk through the rows stands.
    pub closed spec fn iterator(&self) -> QueryIterator {
        self.iterator
    }

    /// The cells are laid out for the provider's columns and hold at least
    /// one row, and a batch that is being walked is the batch in the cells.
    pub open spec fn wf(&self) -> bool {
        &&& self.results().wf()
        &&& self.results().descriptors() == self.provider().spec_descriptors()
        &&& self.results().cells().batch >= 1
        &&& self.iterator().wf()
        &&& self.iterator().state matches QueryState::HasBatch(n, _) ==> n
            == self.results().rows()
    }

    /// Lays out the cells for `batch` rows of the provider's columns.
    ///
    /// `described` is the number of columns that the cursor describes. When
    /// the provider declares another number, the query is refused with
    /// [`StatementError::Protocol`]; when there is no room for a single
    /// row or the cells cannot be addressed, with [`StatementError::Size`].
    pub fn new(results_provider: R, batch: usize, described: usize) -> (r: Result<
        Query<R>,
        StatementError,
    >)
        ensures
            match r {
                Ok(q) => {
                    &&& results_provider.spec_descriptors().len() == described
                    &&& q.wf()
                    &&& q.provider() == results_provider
                    &&& q.results().cells().batch == batch
                    &&& q.results().rows() == 0
                    &&& q.iterator() == (QueryIterator { state: QueryState::Ready, drained: false })
                },
                Err(StatementError::Protocol { declared, described: d }) => {
                    &&& declared == results_provider.spec_descriptors().len()
                    &&& d == described
                    &&& declared != described
                },
                Err(StatementError::Size) => {
                    &&& results_provider.spec_descriptors().len() == described
                    &&& (batch == 0 || !region_fits(
                        descriptor_widths(results_provider.spec_descriptors()),
                        batch as nat,
                    ))
                },
                Err(_) => false,
            },
    {
        let descriptors = results_provider.sql_descriptors();
        if descriptors.len() != described {
            return Err(StatementError::Protocol { declared: descriptors.len(), described });
        }
        if batch == 0 {
            return Err(StatementError::Size);
        }
        match ResultBuffer::new(descriptors, batch) {
            None => Err(StatementError::Size),
            Some(results) => Ok(
                Query { provider: results_provider, results, iterator: QueryIterator::new() },
            ),
        }
    }

    /// The cells of the current batch.
    pub fn result_buffer(&self) -> (results: &ResultBuffer)
        ensures
            *results == self.results(),
    {
        &self.results
    }

    /// Where the walk through the rows stands.
    pub fn position(&self) -> (it: QueryIterator)
        ensures
            it == self.iterator(),
    {
        self.iterator
    }

    /// What to define: one entry for each result column, in declaration
    /// order, with the place of its cell in the first row.
    pub fn definitions(&self) -> (list: Vec<Binding>)
        requires
            self.wf(),
        ensures
            list.len() == self.results().descriptors().len(),
            forall|i: int|
                0 <= i < list.len() ==> #[trigger] list[i] == (Binding {
                    position: (i + 1) as usize,
                    native_code: self.results().descriptors()[i].native_code,
                    offset: self.results().cells().handle(i, 0).offset,
                    capacity: self.results().cells().handle(i, 0).capacity,
                    slot: self.results().cells().handle(i, 0).slot,
                }),
    {
        let n: usize = self.results.len();
        let mut list: Vec<Binding> = Vec::new();
        let mut i: usize = 0;
        while i < n
            invariant
                self.wf(),
                n == self.results().descriptors().len(),
                n == self.results().cells().widths.len(),
                i <= n,
                list.len() == i,
                forall|k: int|
                    0 <= k < i ==> #[trigger] list[k] == (Binding {
                        position: (k + 1) as usize,
                        native_code: self.results().descriptors()[k].native_code,
                        offset: self.results().cells().handle(k, 0).offset,
                        capacity: self.results().cells().handle(k, 0).capacity,
                        slot: self.results().cells().handle(k, 0).slot,
                    }),
            decreases n - i,
        {
            match self.results.value(i, 0) {
                Some(h) => {
                    list.push(
                        Binding {
                            position: i + 1,
                            native_code: self.results.descriptor(i).native_code,
                            offset: h.offset,
                            capacity: h.capacity,
                            slot: h.slot,
                        },
                    );
                },
                None => {
                    assert(false);
                },
            }
            i += 1;
        }
        list
    }

    /// Moves on and says what is to be done next; see
    /// [`QueryIterator::spec_next`]. The cells stay as they are.
    pub fn next(&mut self) -> (step: Step)
        requires
            old(self).wf(),
        ensures
            final(self).wf(),
            final(self).provider() == old(self).provider(),
            final(self).results() == old(self).results(),
            (final(self).iterator(), step) == old(self).iterator().spec_next(),
            step matches Step::Row(k) ==> k < final(self).results().rows(),
    {
        self.iterator.next()
    }

    /// Takes over what a fetch delivered for the cell of `column` in `row`.
    ///
    /// Refused with [`CodecError::Encoding`] when there is no such cell and
    /// with [`CodecError::Truncation`] when the bytes are more than the
    /// cell is wide; the cells then stay as they are.
    pub fn store(&mut self, column: usize, row: usize, bytes: &[u8], indicator: i16) -> (r: Result<
        (),
        CodecError,
    >)
        requires
            old(self).wf(),
        ensures
            final(self).wf(),
            final(self).provider() == old(self).provider(),
            final(self).iterator() == old(self).iterator(),
            final(self).results().descriptors() == old(self).results().descriptors(),
            final(self).results().rows() == old(self).results().rows(),
            final(self).results().cells().same_layout(old(self).results().cells()),
            match r {
                Ok(_) => {
                    let at = old(self).results().cells().handle(column as int, row as int);
                    &&& old(self).results().cells().has(column as int, row as int)
                    &&& bytes.len() <= at.capacity
                    &&& final(self).results().cells().cell(at) == bytes@
                    &&& final(self).results().cells().indicator(at) == indicator
                    &&& old(self).results().cells().written(
                        final(self).results().cells(),
                        at,
                        bytes@,
                        indicator,
                    )
                    &&& old(self).results().cells().differs_only_at(
                        final(self).results().cells(),
                        at,
                    )
                },
                Err(e) => {
                    &&& final(self).results().cells() == old(self).results().cells()
                    &&& e == if old(self).results().cells().has(column as int, row as int) {
                        CodecError::Truncation
                    } else {
                        CodecError::Encoding
                    }
                    &&& old(self).results().cells().has(column as int, row as int) ==> bytes.len()
                        > old(self).results().cells().handle(column as int, row as int).capacity
                },
            },
    {
        match self.results.value(column, row) {
            None => Err(CodecError::Encoding),
            Some(at) => self.results.store(&at, bytes, indicator),
        }
    }

    /// Takes note of what a native fetch delivered, `rows` rows and
    /// whether the cursor signalled the end of the data, and says what is
    /// to be done next; see [`QueryIterator::spec_fetched`].
    ///
    /// More rows than the batch holds are refused with
    /// [`StatementError::Protocol`], and nothing changes.
    pub fn fetched(&mut self, rows: usize, end_of_data: bool) -> (r: Result<Step, StatementError>)
        requires
            old(self).wf(),
        ensures
            final(self).wf(),
            final(self).provider() == old(self).provider(),
            final(self).results().descriptors() == old(self).results().descriptors(),
            final(self).results().cells() == old(self).results().cells(),
            match r {
                Ok(step) => {
                    &&& rows <= old(self).results().cells().batch
                    &&& (final(self).iterator(), step) == old(self).iterator().spec_fetched(
                        rows,
                        end_of_data,
                    )
                    &&& final(self).results().rows() == if old(self).iterator().state
                        is Exhausted {
                        old(self).results().rows()
                    } else {
                        rows as nat
                    }
                    &&& step matches Step::Row(k) ==> k < final(self).results().rows()
                },
                Err(StatementError::Protocol { declared, described }) => {
                    &&& rows > old(self).results().cells().batch
                    &&& declared == old(self).results().cells().batch
                    &&& described == rows
                    &&& final(self).iterator() == old(self).iterator()
                    &&& final(self).results() == old(self).results()
                },
                Err(_) => false,
            },
    {
        if rows > self.results.batch() {
            return Err(
                StatementError::Protocol { declared: self.results.batch(), described: rows },
            );
        }
        match self.iterator.state {
            QueryState::Exhausted => {},
            _ => {
                let accepted: bool = self.results.set_fetched(rows);
                assert(accepted);
            },
        }
        Ok(self.iterator.fetched(rows, end_of_data))
    }

    /// Decodes the row at position `row` of the current batch, if the last
    /// fetch filled it.
    pub fn row(&self, row: usize) -> (value: Option<R::Row>)
        requires
            self.wf(),
        ensures
            value is Some <==> row < self.results().rows(),
            value matches Some(x) ==> self.provider().is_result(&self.results(), row as int, &x),
    {
        match self.results.row(row) {
            None => None,
            Some(rs) => Some(self.provider.gen_result(&self.results, &rs)),
        }
    }

    /// Decodes all rows of the current batch, in order.
    pub fn rows(&self) -> (values: Vec<R::Row>)
        requires
            self.wf(),
        ensures
            values.len() == self.results().rows(),
            forall|i: int|
                0 <= i < values.len() ==> self.provider().is_result(
                    &self.results(),
                    i,
                    #[trigger] &values[i],
                ),
    {
        let n: usize = self.results.fetched();
        let mut values: Vec<R::Row> = Vec::new();
        let mut i: usize = 0;
        while i < n
            invariant
                self.wf(),
                n == self.results().rows(),
                i <= n,
                values.len() == i,
                forall|k: int|
                    0 <= k < i ==> self.provider().is_result(
                        &self.results(),
                        k,
                        #[trigger] &values[k],
                    ),
            decreases n - i,
        {
            match self.row(i) {
                Some(x) => {
                    values.push(x);
                },
                None => {
                    assert(false);
                },
            }
            i += 1;
        }
        values
    }
}

/// Exhaustion: an exhausted walk answers every further `next` with
/// [`Step::Done`], asks for no fetch, and stays exhausted.
pub proof fn law_exhausted_stays(it: QueryIterator)
    requires
        it.state is Exhausted,
    ensures
        it.spec_next() == (it, Step::Done),
        forall|rows: usize, end_of_data: bool|
            #[trigger] it.spec_fetched(rows, end_of_data) == (it, Step::Done),
{
}

/// Single pass: inside a batch the rows are handed out one after the other,
/// each position once.
pub proof fn law_rows_in_order(it: QueryIterator)
    requires
        it.wf(),
        it.state is HasBatch,
    ensures
        it.spec_next().1 matches Step::Row(k) ==> k == it.state->HasBatch_1 + 1 && k
            < it.state->HasBatch_0 && it.spec_next().0.state == QueryState::HasBatch(
            it.state->HasBatch_0,
            k,
        ),
{
}

} // verus!
