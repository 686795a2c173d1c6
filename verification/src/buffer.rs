//! Parameter and result buffers: one region of cells with a fixed layout.

use crate::types::{Member, SqlType, TypeDescriptor, INDICATOR_NULL};
use crate::temporal::SqlDateTime;
use crate::values::{
    decode, decode_or_default_spec, decode_spec, encode, encode_null, encode_spec, law_round_trip,
    CodecError, Value, ValueView,
};
use vstd::prelude::*;
use vstd::slice::slice_subrange;

verus! {

/// Where the cells of column `i` begin: each earlier column takes `batch`
/// cells of its width.
pub open spec fn spec_base(widths: Seq<usize>, batch: nat, i: nat) -> nat
    decreases i,
{
    if i == 0 {
        0
    } else {
        spec_base(widths, batch, (i - 1) as nat) + widths[i - 1] as nat * batch
    }
}

/// Where the cell of column `i` in row `row` begins.
pub open spec fn spec_offset(widths: Seq<usize>, batch: nat, i: nat, row: nat) -> nat {
    spec_base(widths, batch, i) + row * widths[i as int] as nat
}

/// Later columns begin later.
pub proof fn lemma_base_monotonic(widths: Seq<usize>, batch: nat, i: nat, j: nat)
    requires
        i <= j,
    ensures
        spec_base(widths, batch, i) <= spec_base(widths, batch, j),
    decreases j,
{
    if i < j {
        lemma_base_monotonic(widths, batch, i, (j - 1) as nat);
        assert(widths[j - 1] as nat * batch >= 0) by (nonlinear_arith);
    }
}

/// Where the indicator of the cell of column `i` in row `row` lies.
pub open spec fn spec_slot(batch: nat, i: int, row: int) -> int {
    i * batch + row
}

/// A cell lies inside the cells of its column.
pub proof fn lemma_cell_in_column(widths: Seq<usize>, batch: nat, i: nat, row: nat)
    requires
        i < widths.len(),
        row < batch,
    ensures
        spec_base(widths, batch, i) <= spec_offset(widths, batch, i, row),
        spec_offset(widths, batch, i, row) + widths[i as int] <= spec_base(widths, batch, i + 1),
{
    let w = widths[i as int] as nat;
    assert(row * w + w <= w * batch && 0 <= row * w) by (nonlinear_arith)
        requires
            row < batch,
    ;
}

/// The slot of a cell lies inside the slots.
pub proof fn lemma_slot_in_range(columns: nat, batch: nat, i: nat, row: nat)
    requires
        i < columns,
        row < batch,
    ensures
        i * batch + row < columns * batch,
{
    assert(i * batch + row < columns * batch) by (nonlinear_arith)
        requires
            i < columns,
            row < batch,
    ;
}

/// Cells of different positions have different slots.
pub proof fn lemma_slots_differ(batch: nat, i: nat, row: nat, j: nat, other: nat)
    requires
        row < batch,
        other < batch,
        i != j || row != other,
    ensures
        i * batch + row != j * batch + other,
{
    assert(i * batch + row != j * batch + other) by (nonlinear_arith)
        requires
            row < batch,
            other < batch,
            i != j || row != other,
    ;
}

/// A handle on one cell: where its bytes and its indicator lie, and how
/// many bytes it can take.
#[derive(Clone, Copy, Debug, PartialEq, Eq, Structural)]
pub struct CellHandle {
    /// Column of the cell.
    pub column: usize,
    /// Row of the cell inside the batch.
    pub row: usize,
    /// Position of the first byte of the cell in the data region.
    pub offset: usize,
    /// Position of the indicator of the cell among the indicators.
    pub slot: usize,
    /// Declared width of the cell.
    pub capacity: usize,
}

/// Handle on a parameter cell.
pub type ParamValue = CellHandle;

/// Handle on a result cell.
pub type ResultValue = CellHandle;

/// Whether the byte at position `b` of the data region lies in the cell of
/// `h`.
pub open spec fn covers(h: CellHandle, b: int) -> bool {
    h.offset <= b < h.offset + h.capacity
}

/// Mathematical value of a [`CellBuffer`].
pub struct CellBufferView {
    /// Width of a cell of each column.
    pub widths: Seq<usize>,
    /// Number of rows.
    pub batch: nat,
    /// The bytes of all cells, column by column.
    pub data: Seq<u8>,
    /// The indicator of each cell, column by column.
    pub indicators: Seq<i16>,
    /// How many bytes of each cell hold data, column by column.
    pub lengths: Seq<usize>,
}

impl CellBufferView {
    /// The layout leaves no gaps and every cell holds no more bytes than
    /// its width.
    pub open spec fn wf(self) -> bool {
        &&& self.data.len() == spec_base(self.widths, self.batch, self.widths.len())
        &&& self.data.len() <= usize::MAX
        &&& self.indicators.len() == self.widths.len() * self.batch
        &&& self.indicators.len() <= usize::MAX
        &&& self.lengths.len() == self.indicators.len()
        &&& forall|i: int, row: int|
            #![trigger spec_slot(self.batch, i, row)]
            0 <= i < self.widths.len() && 0 <= row < self.batch ==> self.lengths[spec_slot(
                self.batch,
                i,
                row,
            )] <= self.widths[i]
    }

    /// Whether the buffer has a cell at this position.
    pub open spec fn has(self, column: int, row: int) -> bool {
        0 <= column < self.widths.len() && 0 <= row < self.batch
    }

    /// The handle on the cell of `column` in `row`.
    pub open spec fn handle(self, column: int, row: int) -> CellHandle {
        CellHandle {
            column: column as usize,
            row: row as usize,
            offset: spec_offset(self.widths, self.batch, column as nat, row as nat) as usize,
            slot: spec_slot(self.batch, column, row) as usize,
            capacity: self.widths[column],
        }
    }

    /// Whether `h` is the handle on one of the cells of this buffer.
    pub open spec fn owns(self, h: CellHandle) -> bool {
        self.has(h.column as int, h.row as int) && h == self.handle(h.column as int, h.row as int)
    }

    /// The bytes of a cell that hold data.
    pub open spec fn cell(self, h: CellHandle) -> Seq<u8> {
        self.data.subrange(h.offset as int, h.offset + self.lengths[h.slot as int])
    }

    /// The indicator of a cell.
    pub open spec fn indicator(self, h: CellHandle) -> i16 {
        self.indicators[h.slot as int]
    }

    /// Whether `after` is this buffer after `bytes` were written to the
    /// front of the cell `h` and its indicator was set: the bytes before the
    /// cell, the bytes of the cell behind those written and the bytes behind
    /// the cell are as they are here, and so are the indicator and the
    /// length of every other cell.
    pub open spec fn written(
        self,
        after: CellBufferView,
        h: CellHandle,
        bytes: Seq<u8>,
        indicator: i16,
    ) -> bool {
        &&& after.widths == self.widths
        &&& after.batch == self.batch
        &&& after.data == self.data.subrange(0, h.offset as int) + bytes + self.data.subrange(
            h.offset + bytes.len(),
            self.data.len() as int,
        )
        &&& after.indicators == self.indicators.update(h.slot as int, indicator)
        &&& after.lengths == self.lengths.update(h.slot as int, bytes.len() as usize)
    }

    /// Whether `after` is this buffer with at most the cell `h` changed:
    /// laid out alike, and with the bytes and the indicator of every other
    /// cell as they are here.
    pub open spec fn differs_only_at(self, after: CellBufferView, h: CellHandle) -> bool {
        &&& after.same_layout(self)
        &&& forall|other: CellHandle|
            #![trigger after.cell(other)]
            #![trigger after.indicator(other)]
            self.owns(other) && other != h ==> {
                &&& after.cell(other) == self.cell(other)
                &&& after.indicator(other) == self.indicator(other)
            }
    }

    /// Whether `after` is this buffer with nothing changed but the cells of
    /// the first `k` columns in row `row`: laid out alike, with every other
    /// cell holding the data and the indicator that it holds here, and with
    /// every byte and every indicator outside those cells as it is here.
    pub open spec fn changed_only_in_row(self, after: CellBufferView, row: int, k: int) -> bool {
        &&& after.same_layout(self)
        &&& after.indicators.len() == self.indicators.len()
        &&& forall|other: CellHandle|
            #![trigger after.cell(other)]
            #![trigger after.indicator(other)]
            self.owns(other) && (other.row != row || other.column >= k) ==> {
                &&& after.cell(other) == self.cell(other)
                &&& after.indicator(other) == self.indicator(other)
            }
        &&& forall|b: int|
            #![trigger after.data[b]]
            0 <= b < self.data.len() && (forall|j: int|
                0 <= j < k ==> !covers(#[trigger] self.handle(j, row), b)) ==> after.data[b]
                == self.data[b]
        &&& forall|s: int|
            #![trigger after.indicators[s]]
            0 <= s < self.indicators.len() && (forall|j: int|
                0 <= j < k ==> (#[trigger] self.handle(j, row)).slot != s) ==> after.indicators[s]
                == self.indicators[s]
    }

    /// Whether two buffers are laid out alike: every handle on one is a
    /// handle on the other.
    pub open spec fn same_layout(self, other: CellBufferView) -> bool {
        self.widths == other.widths && self.batch == other.batch && self.data.len()
            == other.data.len()
    }
}

/// The cell of a handle lies inside the data region, and its indicator among
/// the indicators.
pub proof fn lemma_cell_in_region(buffer: CellBufferView, h: CellHandle)
    requires
        buffer.wf(),
        buffer.owns(h),
    ensures
        h.offset + h.capacity <= buffer.data.len(),
        h.slot < buffer.indicators.len(),
        buffer.lengths[h.slot as int] <= h.capacity,
        buffer.cell(h).len() == buffer.lengths[h.slot as int],
        h.offset == spec_offset(buffer.widths, buffer.batch, h.column as nat, h.row as nat),
        h.slot == spec_slot(buffer.batch, h.column as int, h.row as int),
        h.capacity == buffer.widths[h.column as int],
{
    let n = buffer.widths.len();
    lemma_cell_in_column(buffer.widths, buffer.batch, h.column as nat, h.row as nat);
    lemma_base_monotonic(buffer.widths, buffer.batch, (h.column + 1) as nat, n);
    lemma_slot_in_range(n, buffer.batch, h.column as nat, h.row as nat);
    assert(buffer.lengths[spec_slot(buffer.batch, h.column as int, h.row as int)]
        <= buffer.widths[h.column as int]);
}

/// Cells do not overlap: writing into one cell leaves the bytes and the
/// indicator of every other cell as they were.
pub proof fn lemma_write_keeps_other_cells(
    before: CellBufferView,
    after: CellBufferView,
    h: CellHandle,
    other: CellHandle,
    bytes: Seq<u8>,
    indicator: i16,
)
    requires
        before.wf(),
        before.owns(h),
        before.owns(other),
        other != h,
        bytes.len() <= h.capacity,
        after.data == before.data.subrange(0, h.offset as int) + bytes + before.data.subrange(
            h.offset + bytes.len(),
            before.data.len() as int,
        ),
        after.indicators == before.indicators.update(h.slot as int, indicator),
        after.lengths == before.lengths.update(h.slot as int, bytes.len() as usize),
    ensures
        after.cell(other) == before.cell(other),
        after.indicator(other) == before.indicator(other),
{
    let widths = before.widths;
    let batch = before.batch;
    let n = widths.len();
    lemma_cell_in_region(before, h);
    lemma_cell_in_region(before, other);
    lemma_cell_in_column(widths, batch, h.column as nat, h.row as nat);
    lemma_cell_in_column(widths, batch, other.column as nat, other.row as nat);
    lemma_slots_differ(batch, h.column as nat, h.row as nat, other.column as nat, other.row as nat);
    if h.column < other.column {
        lemma_base_monotonic(widths, batch, (h.column + 1) as nat, other.column as nat);
    } else if other.column < h.column {
        lemma_base_monotonic(widths, batch, (other.column + 1) as nat, h.column as nat);
    } else {
        let w = widths[h.column as int] as nat;
        let r1 = h.row as nat;
        let r2 = other.row as nat;
        assert(r1 < r2 ==> r1 * w + w <= r2 * w) by (nonlinear_arith);
        assert(r2 < r1 ==> r2 * w + w <= r1 * w) by (nonlinear_arith);
    }
    assert(h.offset + h.capacity <= other.offset || other.offset + other.capacity <= h.offset);
    assert(after.cell(other) =~= before.cell(other));
}

/// A buffer that was changed in one more cell of a row, the next in order,
/// is changed only in the cells of that row up to and with that cell.
pub proof fn lemma_one_more_cell_changed(
    start: CellBufferView,
    before: CellBufferView,
    after: CellBufferView,
    h: CellHandle,
    bytes: Seq<u8>,
    indicator: i16,
)
    requires
        start.wf(),
        before.wf(),
        before.owns(h),
        start.changed_only_in_row(before, h.row as int, h.column as int),
        bytes.len() <= h.capacity,
        before.written(after, h, bytes, indicator),
        before.differs_only_at(after, h),
    ensures
        start.changed_only_in_row(after, h.row as int, h.column + 1),
{
    let row = h.row as int;
    let k = h.column as int;
    assert(h == start.handle(k, row));
    lemma_cell_in_region(before, h);
    assert forall|other: CellHandle|
        #![trigger after.cell(other)]
        #![trigger after.indicator(other)]
        start.owns(other) && (other.row != row || other.column >= k + 1) implies {
        &&& after.cell(other) == start.cell(other)
        &&& after.indicator(other) == start.indicator(other)
    } by {
        assert(before.owns(other));
        assert(other != h);
        assert(before.cell(other) == start.cell(other));
        assert(before.indicator(other) == start.indicator(other));
    }
    assert forall|b: int|
        #![trigger after.data[b]]
        0 <= b < start.data.len() && (forall|j: int|
            0 <= j < k + 1 ==> !covers(#[trigger] start.handle(j, row), b)) implies after.data[b]
        == start.data[b] by {
        assert(!covers(start.handle(k, row), b));
        assert(before.data[b] == start.data[b]);
    }
    assert forall|s: int|
        #![trigger after.indicators[s]]
        0 <= s < start.indicators.len() && (forall|j: int|
            0 <= j < k + 1 ==> (#[trigger] start.handle(j, row)).slot != s) implies
        after.indicators[s] == start.indicators[s] by {
        assert(start.handle(k, row).slot != s);
        assert(before.indicators[s] == start.indicators[s]);
    }
}

/// What is changed only in the first `k` cells of a row is changed only in
/// its first `n` cells, for any larger `n`.
pub proof fn lemma_changed_in_fewer_cells(
    start: CellBufferView,
    after: CellBufferView,
    row: int,
    k: int,
    n: int,
)
    requires
        start.changed_only_in_row(after, row, k),
        k <= n,
    ensures
        start.changed_only_in_row(after, row, n),
{
    assert forall|b: int|
        #![trigger after.data[b]]
        0 <= b < start.data.len() && (forall|j: int|
            0 <= j < n ==> !covers(#[trigger] start.handle(j, row), b)) implies after.data[b]
        == start.data[b] by {
        assert(forall|j: int| 0 <= j < k ==> !covers(#[trigger] start.handle(j, row), b));
    }
    assert forall|s: int|
        #![trigger after.indicators[s]]
        0 <= s < start.indicators.len() && (forall|j: int|
            0 <= j < n ==> (#[trigger] start.handle(j, row)).slot != s) implies after.indicators[s]
        == start.indicators[s] by {
        assert(forall|j: int| 0 <= j < k ==> (#[trigger] start.handle(j, row)).slot != s);
    }
}

/// Buffer stability: in buffers that are laid out alike every cell has the
/// same handle, so the places handed out for one stay good for the other.
pub proof fn law_handles_are_stable(before: CellBufferView, after: CellBufferView)
    requires
        after.same_layout(before),
    ensures
        forall|column: int, row: int|
            before.has(column, row) == after.has(column, row) && #[trigger] before.handle(
                column,
                row,
            ) == after.handle(column, row),
        forall|h: CellHandle| before.owns(h) == #[trigger] after.owns(h),
{
}

/// A region of cells: for each column, `batch` cells of the column's width,
/// and beside the bytes one indicator and one length for each cell.
pub struct CellBuffer {
    widths: Vec<usize>,
    batch: usize,
    bases: Vec<usize>,
    data: Vec<u8>,
    indicators: Vec<i16>,
    lengths: Vec<usize>,
}

impl View for CellBuffer {
    type V = CellBufferView;

    closed spec fn view(&self) -> CellBufferView {
        CellBufferView {
            widths: self.widths@,
            batch: self.batch as nat,
            data: self.data@,
            indicators: self.indicators@,
            lengths: self.lengths@,
        }
    }
}

/// Whether a region of this shape can be allocated: no allocation may take
/// more bytes than the largest signed size, and beside the bytes of the
/// cells there is a length of up to eight bytes for each cell.
pub open spec fn region_fits(widths: Seq<usize>, batch: nat) -> bool {
    spec_base(widths, batch, widths.len()) <= isize::MAX && widths.len() * batch <= isize::MAX / 8
}

impl CellBuffer {
    /// The buffer is laid out as its view says, and knows where each column
    /// begins.
    pub closed spec fn wf(&self) -> bool {
        &&& self@.wf()
        &&& self.bases@.len() == self.widths@.len() + 1
        &&& forall|i: int|
            0 <= i <= self.widths@.len() ==> #[trigger] self.bases@[i] == spec_base(
                self.widths@,
                self.batch as nat,
                i as nat,
            )
    }

    /// Allocates the region for `batch` rows of cells of the given widths.
    /// Every cell starts out as NULL. There is no buffer when the region
    /// would be larger than can be allocated.
    pub fn new(widths: Vec<usize>, batch: usize) -> (buffer: Option<CellBuffer>)
        ensures
            buffer is Some <==> region_fits(widths@, batch as nat),
            buffer matches Some(b) ==> {
                &&& b.wf()
                &&& b@.widths == widths@
                &&& b@.batch == batch
                &&& forall|k: int|
                    0 <= k < b@.indicators.len() ==> b@.indicators[k] == INDICATOR_NULL
                &&& forall|k: int| 0 <= k < b@.lengths.len() ==> b@.lengths[k] == 0
            },
    {
        let n: usize = widths.len();
        let mut bases: Vec<usize> = Vec::new();
        bases.push(0);
        let mut i: usize = 0;
        while i < n
            invariant
                i <= n,
                n == widths.len(),
                bases.len() == i + 1,
                forall|k: int|
                    0 <= k <= i ==> #[trigger] bases@[k] == spec_base(
                        widths@,
                        batch as nat,
                        k as nat,
                    ),
            decreases n - i,
        {
            proof {
                lemma_base_monotonic(widths@, batch as nat, (i + 1) as nat, n as nat);
            }
            let block: usize = match widths[i].checked_mul(batch) {
                Some(block) => block,
                None => {
                    return None;
                },
            };
            let next: usize = match bases[i].checked_add(block) {
                Some(next) => next,
                None => {
                    return None;
                },
            };
            bases.push(next);
            i += 1;
        }
        let slots: usize = match n.checked_mul(batch) {
            Some(slots) => slots,
            None => {
                return None;
            },
        };
        let total: usize = bases[n];
        if total > isize::MAX as usize || slots > (isize::MAX as usize) / 8 {
            return None;
        }
        let data: Vec<u8> = vec![0u8; total];
        let indicators: Vec<i16> = vec![INDICATOR_NULL; slots];
        let lengths: Vec<usize> = vec![0usize; slots];
        let b = CellBuffer { widths, batch, bases, data, indicators, lengths };
        proof {
            assert forall|c: int, row: int|
                #![trigger spec_slot(b@.batch, c, row)]
                0 <= c < b@.widths.len() && 0 <= row < b@.batch implies b@.lengths[spec_slot(
                    b@.batch,
                    c,
                    row,
                )] <= b@.widths[c] by {
                lemma_slot_in_range(n as nat, batch as nat, c as nat, row as nat);
            }
        }
        Some(b)
    }
}

impl CellBuffer {
    /// Number of columns.
    pub fn columns(&self) -> (n: usize)
        ensures
            n == self@.widths.len(),
    {
        self.widths.len()
    }

    /// Number of rows.
    pub fn batch(&self) -> (n: usize)
        ensures
            n == self@.batch,
    {
        self.batch
    }

    /// Number of bytes of the data region.
    pub fn size(&self) -> (n: usize)
        ensures
            n == self@.data.len(),
    {
        self.data.len()
    }

    /// The bytes of all cells, column by column.
    pub fn region(&self) -> (bytes: &[u8])
        ensures
            bytes@ == self@.data,
    {
        self.data.as_slice()
    }

    /// Number of cells.
    pub fn slots(&self) -> (n: usize)
        ensures
            n == self@.indicators.len(),
    {
        self.indicators.len()
    }

    /// The handle on the cell of `column` in `row`, if there is such a cell.
    pub fn handle(&self, column: usize, row: usize) -> (h: Option<CellHandle>)
        requires
            self.wf(),
        ensures
            h is Some <==> self@.has(column as int, row as int),
            h matches Some(x) ==> x == self@.handle(column as int, row as int) && self@.owns(x),
    {
        if column >= self.widths.len() || row >= self.batch {
            return None;
        }
        proof {
            let n = self.widths@.len();
            lemma_cell_in_column(self.widths@, self.batch as nat, column as nat, row as nat);
            lemma_base_monotonic(self.widths@, self.batch as nat, (column + 1) as nat, n);
            lemma_slot_in_range(n, self.batch as nat, column as nat, row as nat);
            assert(self.bases@[column as int] == spec_base(
                self.widths@,
                self.batch as nat,
                column as nat,
            ));
        }
        let width: usize = self.widths[column];
        let offset: usize = self.bases[column] + row * width;
        let slot: usize = column * self.batch + row;
        Some(CellHandle { column, row, offset, slot, capacity: width })
    }

    /// Whether `h` is the handle on one of the cells of this buffer.
    pub fn owns(&self, h: &CellHandle) -> (b: bool)
        requires
            self.wf(),
        ensures
            b == self@.owns(*h),
    {
        match self.handle(h.column, h.row) {
            Some(x) => x.offset == h.offset && x.slot == h.slot && x.capacity == h.capacity,
            None => false,
        }
    }

    /// Writes `bytes` to the front of a cell and sets its indicator. The
    /// bytes of the cell behind them, and all other cells, stay as they
    /// are, and nothing moves.
    pub fn write(&mut self, h: &CellHandle, bytes: &[u8], indicator: i16)
        requires
            old(self).wf(),
            old(self)@.owns(*h),
            bytes.len() <= h.capacity,
        ensures
            final(self).wf(),
            final(self)@.same_layout(old(self)@),
            old(self)@.written(final(self)@, *h, bytes@, indicator),
            final(self)@.cell(*h) == bytes@,
            final(self)@.indicator(*h) == indicator,
            old(self)@.differs_only_at(final(self)@, *h),
    {
        let ghost before = self@;
        let ghost n = self.widths@.len();
        proof {
            lemma_cell_in_column(self.widths@, self.batch as nat, h.column as nat, h.row as nat);
            lemma_base_monotonic(self.widths@, self.batch as nat, (h.column + 1) as nat, n);
            lemma_slot_in_range(n, self.batch as nat, h.column as nat, h.row as nat);
        }
        let mut k: usize = 0;
        while k < bytes.len()
            invariant
                k <= bytes.len(),
                h.offset + bytes.len() <= before.data.len() <= usize::MAX,
                self.data@.len() == before.data.len(),
                self.widths@ == before.widths,
                self.batch == before.batch,
                self.bases@ == old(self).bases@,
                self.indicators@ == before.indicators,
                self.lengths@ == before.lengths,
                self.data@ == before.data.subrange(0, h.offset as int) + bytes@.take(k as int)
                    + before.data.subrange(h.offset + k, before.data.len() as int),
            decreases bytes.len() - k,
        {
            self.data.set(h.offset + k, bytes[k]);
            k += 1;
            assert(self.data@ =~= before.data.subrange(0, h.offset as int) + bytes@.take(k as int)
                + before.data.subrange(h.offset + k, before.data.len() as int));
        }
        assert(bytes@.take(bytes.len() as int) =~= bytes@);
        self.indicators.set(h.slot, indicator);
        self.lengths.set(h.slot, bytes.len());
        proof {
            let after = self@;
            assert forall|i: int, row: int|
                #![trigger spec_slot(after.batch, i, row)]
                after.has(i, row) implies after.lengths[spec_slot(after.batch, i, row)]
                <= after.widths[i] by {
                lemma_slot_in_range(n, after.batch, i as nat, row as nat);
                if i != h.column || row != h.row {
                    lemma_slots_differ(
                        after.batch,
                        i as nat,
                        row as nat,
                        h.column as nat,
                        h.row as nat,
                    );
                    assert(before.lengths[spec_slot(before.batch, i, row)] <= before.widths[i]);
                }
            }
            assert(after.cell(*h) =~= bytes@);
            assert forall|other: CellHandle| before.owns(other) && other != *h implies {
                &&& after.cell(other) == before.cell(other)
                &&& after.indicator(other) == before.indicator(other)
            } by {
                lemma_write_keeps_other_cells(before, after, *h, other, bytes@, indicator);
            }
        }
    }

    /// The bytes of a cell that hold data.
    pub fn read(&self, h: &CellHandle) -> (bytes: &[u8])
        requires
            self.wf(),
            self@.owns(*h),
        ensures
            bytes@ == self@.cell(*h),
    {
        proof {
            let n = self.widths@.len();
            lemma_cell_in_column(self.widths@, self.batch as nat, h.column as nat, h.row as nat);
            lemma_base_monotonic(self.widths@, self.batch as nat, (h.column + 1) as nat, n);
            lemma_slot_in_range(n, self.batch as nat, h.column as nat, h.row as nat);
            assert(self@.lengths[spec_slot(self@.batch, h.column as int, h.row as int)]
                <= self@.widths[h.column as int]);
        }
        let len: usize = self.lengths[h.slot];
        slice_subrange(self.data.as_slice(), h.offset, h.offset + len)
    }

    /// The indicator of a cell.
    pub fn indicator(&self, h: &CellHandle) -> (indicator: i16)
        requires
            self.wf(),
            self@.owns(*h),
        ensures
            indicator == self@.indicator(*h),
    {
        proof {
            lemma_slot_in_range(
                self.widths@.len(),
                self.batch as nat,
                h.column as nat,
                h.row as nat,
            );
        }
        self.indicators[h.slot]
    }
}

/// Width of the cell of each parameter.
pub open spec fn member_widths(members: Seq<Member>) -> Seq<usize> {
    Seq::new(members.len(), |i: int| members[i].descriptor.width)
}

/// Width of the cell of each result column.
pub open spec fn descriptor_widths(descriptors: Seq<TypeDescriptor>) -> Seq<usize> {
    Seq::new(descriptors.len(), |i: int| descriptors[i].width)
}

/// What projecting a value into a cell of type `ty` and of `capacity`
/// bytes writes: the encoded value, if the value is of that type.
pub open spec fn project_spec(v: ValueView, ty: SqlType, capacity: nat) -> Result<
    (Seq<u8>, i16),
    CodecError,
> {
    if v.sql_type() != ty {
        Err(CodecError::Encoding)
    } else {
        encode_spec(v, capacity)
    }
}

/// The cells of the parameters of a statement.
pub struct ParamBuffer {
    members: Vec<Member>,
    cells: CellBuffer,
}

impl ParamBuffer {
    /// The parameters, in declaration order.
    pub closed spec fn members(&self) -> Seq<Member> {
        self.members@
    }

    /// The cells.
    pub closed spec fn cells(&self) -> CellBufferView {
        self.cells@
    }

    /// The cells know where each column begins.
    pub closed spec fn cells_wf(&self) -> bool {
        self.cells.wf()
    }

    /// There is one column of cells for each parameter, of the width that
    /// its descriptor declares.
    pub open spec fn wf(&self) -> bool {
        &&& self.cells_wf()
        &&& self.cells().wf()
        &&& self.cells().widths == member_widths(self.members())
    }

    /// What [`ParamBuffer::project`] does to a buffer: it encodes `v` into
    /// the front of the cell `at` and leaves every other byte alone, those
    /// of the cell behind the encoding as well as all other cells; a value
    /// that is not of the parameter's type or does not fit the cell changes
    /// nothing.
    pub open spec fn projects(
        &self,
        after: ParamBuffer,
        at: ParamValue,
        v: ValueView,
        r: Result<usize, CodecError>,
    ) -> bool {
        &&& after.wf()
        &&& after.members() == self.members()
        &&& match r {
            Ok(written) => {
                &&& project_spec(v, self.sql_type(at), at.capacity as nat) == Ok::<
                    (Seq<u8>, i16),
                    CodecError,
                >((after.cells().cell(at), after.cells().indicator(at)))
                &&& written == after.cells().cell(at).len()
                &&& self.cells().written(
                    after.cells(),
                    at,
                    after.cells().cell(at),
                    after.cells().indicator(at),
                )
                &&& self.cells().differs_only_at(after.cells(), at)
            },
            Err(e) => {
                &&& project_spec(v, self.sql_type(at), at.capacity as nat) == Err::<
                    (Seq<u8>, i16),
                    CodecError,
                >(e)
                &&& after.cells() == self.cells()
            },
        }
    }

    /// The type of the parameter whose cell `at` is.
    pub open spec fn sql_type(&self, at: ParamValue) -> SqlType {
        self.members()[at.column as int].descriptor.sql_type
    }

    /// Allocates the cells for `batch` rows of the given parameters.
    pub fn new(members: Vec<Member>, batch: usize) -> (buffer: Option<ParamBuffer>)
        ensures
            buffer is Some <==> region_fits(member_widths(members@), batch as nat),
            buffer matches Some(b) ==> {
                &&& b.wf()
                &&& b.members() == members@
                &&& b.cells().widths == member_widths(members@)
                &&& b.cells().batch == batch
                &&& forall|k: int|
                    0 <= k < b.cells().indicators.len() ==> b.cells().indicators[k]
                        == INDICATOR_NULL
            },
    {
        let mut widths: Vec<usize> = Vec::new();
        let mut i: usize = 0;
        while i < members.len()
            invariant
                i <= members.len(),
                widths.len() == i,
                forall|k: int| 0 <= k < i ==> widths@[k] == members@[k].descriptor.width,
            decreases members.len() - i,
        {
            widths.push(members[i].descriptor.width);
            i += 1;
        }
        assert(widths@ =~= member_widths(members@));
        match CellBuffer::new(widths, batch) {
            Some(cells) => Some(ParamBuffer { members, cells }),
            None => None,
        }
    }

    /// Number of parameters.
    pub fn len(&self) -> (n: usize)
        requires
            self.wf(),
        ensures
            n == self.members().len(),
            n == self.cells().widths.len(),
    {
        self.members.len()
    }

    /// Number of rows.
    pub fn batch(&self) -> (n: usize)
        ensures
            n == self.cells().batch,
    {
        self.cells.batch()
    }

    /// The bytes of all cells, column by column.
    pub fn region(&self) -> (bytes: &[u8])
        ensures
            bytes@ == self.cells().data,
    {
        self.cells.region()
    }

    /// The parameter at position `i`.
    pub fn member(&self, i: usize) -> (m: &Member)
        requires
            i < self.members().len(),
        ensures
            *m == self.members()[i as int],
    {
        &self.members[i]
    }

    /// The handle on the cell of parameter `member` in `row`, if there is
    /// such a cell.
    pub fn value(&self, member: usize, row: usize) -> (h: Option<ParamValue>)
        requires
            self.wf(),
        ensures
            h is Some <==> self.cells().has(member as int, row as int),
            h matches Some(x) ==> x == self.cells().handle(member as int, row as int)
                && self.cells().owns(x),
    {
        self.cells.handle(member, row)
    }

    /// Encodes `value` into the cell `at`.
    ///
    /// The value must have the type of the parameter and fit its cell;
    /// else the buffer stays as it is. On success the count of bytes
    /// written is returned.
    pub fn project(&mut self, at: &ParamValue, value: &Value) -> (r: Result<usize, CodecError>)
        requires
            old(self).wf(),
            old(self).cells().owns(*at),
        ensures
            old(self).projects(*final(self), *at, value@, r),
    {
        let ty: SqlType = self.members[at.column].descriptor.sql_type;
        if value.sql_type() != ty {
            return Err(CodecError::Encoding);
        }
        match encode(value, at.capacity) {
            Err(e) => Err(e),
            Ok(cell) => {
                self.cells.write(at, cell.data.as_slice(), cell.indicator);
                Ok(cell.data.len())
            },
        }
    }

    /// Writes SQL NULL into the cell `at`.
    pub fn project_null(&mut self, at: &ParamValue)
        requires
            old(self).wf(),
            old(self).cells().owns(*at),
        ensures
            final(self).wf(),
            final(self).members() == old(self).members(),
            final(self).cells().data == old(self).cells().data,
            final(self).cells().indicator(*at) == INDICATOR_NULL,
            final(self).cells().cell(*at) == Seq::<u8>::empty(),
            old(self).cells().written(final(self).cells(), *at, Seq::empty(), INDICATOR_NULL),
            old(self).cells().differs_only_at(final(self).cells(), *at),
    {
        let null = encode_null();
        proof {
            lemma_cell_in_region(self.cells@, *at);
        }
        self.cells.write(at, null.data.as_slice(), null.indicator);
        assert(self.cells@.data =~= old(self).cells@.data);
    }

    /// The bytes written to the cell `at`.
    pub fn cell(&self, at: &ParamValue) -> (bytes: &[u8])
        requires
            self.wf(),
            self.cells().owns(*at),
        ensures
            bytes@ == self.cells().cell(*at),
    {
        self.cells.read(at)
    }

    /// The indicator of the cell `at`.
    pub fn indicator(&self, at: &ParamValue) -> (indicator: i16)
        requires
            self.wf(),
            self.cells().owns(*at),
        ensures
            indicator == self.cells().indicator(*at),
    {
        self.cells.indicator(at)
    }
}

/// Round trip through a cell: a value that was projected into a parameter
/// cell is decoded from the bytes and the indicator of that cell unchanged.
pub proof fn law_projected_value_decodes(
    before: ParamBuffer,
    after: ParamBuffer,
    at: ParamValue,
    v: ValueView,
    written: usize,
    default: Option<SqlDateTime>,
)
    requires
        before.projects(after, at, v, Ok(written)),
    ensures
        decode_or_default_spec(
            after.cells().cell(at),
            after.cells().indicator(at),
            before.sql_type(at),
            default,
        ) == Ok::<ValueView, CodecError>(v),
{
    law_round_trip(v, at.capacity as nat, default);
}

/// The cells into which the parameters of a statement are projected.
pub type ParamsProjection = ParamBuffer;

/// One row of a fetched batch: a handle on the cell of each column.
#[derive(Clone, Debug, PartialEq, Eq)]
pub struct ResultSet {
    pub row: usize,
    pub values: Vec<ResultValue>,
}

/// The cells of the result columns of a statement, for one batch of rows.
pub struct ResultBuffer {
    descriptors: Vec<TypeDescriptor>,
    cells: CellBuffer,
    rows: usize,
}

impl ResultBuffer {
    /// The result columns, in declaration order.
    pub closed spec fn descriptors(&self) -> Seq<TypeDescriptor> {
        self.descriptors@
    }

    /// The cells.
    pub closed spec fn cells(&self) -> CellBufferView {
        self.cells@
    }

    /// How many rows the last fetch filled.
    pub closed spec fn rows(&self) -> nat {
        self.rows as nat
    }

    /// The cells know where each column begins.
    pub closed spec fn cells_wf(&self) -> bool {
        self.cells.wf()
    }

    /// There is one column of cells for each result column, of the width
    /// that its descriptor declares, and no more rows are filled than there
    /// are.
    pub open spec fn wf(&self) -> bool {
        &&& self.cells_wf()
        &&& self.cells().wf()
        &&& self.cells().widths == descriptor_widths(self.descriptors())
        &&& self.rows() <= self.cells().batch
    }

    /// The type of the column whose cell `at` is.
    pub open spec fn sql_type(&self, at: ResultValue) -> SqlType {
        self.descriptors()[at.column as int].sql_type
    }

    /// Whether `rs` is the view over row `row` of this buffer.
    pub open spec fn is_row(&self, rs: ResultSet, row: int) -> bool {
        &&& 0 <= row < self.rows()
        &&& rs.row == row
        &&& rs.values@.len() == self.descriptors().len()
        &&& forall|i: int|
            0 <= i < rs.values@.len() ==> #[trigger] rs.values@[i] == self.cells().handle(i, row)
    }

    /// Allocates the cells for `batch` rows of the given columns. No row is
    /// filled yet.
    pub fn new(descriptors: Vec<TypeDescriptor>, batch: usize) -> (buffer: Option<ResultBuffer>)
        ensures
            buffer is Some <==> region_fits(descriptor_widths(descriptors@), batch as nat),
            buffer matches Some(b) ==> {
                &&& b.wf()
                &&& b.descriptors() == descriptors@
                &&& b.cells().widths == descriptor_widths(descriptors@)
                &&& b.cells().batch == batch
                &&& b.rows() == 0
            },
    {
        let mut widths: Vec<usize> = Vec::new();
        let mut i: usize = 0;
        while i < descriptors.len()
            invariant
                i <= descriptors.len(),
                widths.len() == i,
                forall|k: int| 0 <= k < i ==> widths@[k] == descriptors@[k].width,
            decreases descriptors.len() - i,
        {
            widths.push(descriptors[i].width);
            i += 1;
        }
        assert(widths@ =~= descriptor_widths(descriptors@));
        match CellBuffer::new(widths, batch) {
            Some(cells) => Some(ResultBuffer { descriptors, cells, rows: 0 }),
            None => None,
        }
    }

    /// Number of result columns.
    pub fn len(&self) -> (n: usize)
        requires
            self.wf(),
        ensures
            n == self.descriptors().len(),
            n == self.cells().widths.len(),
    {
        self.descriptors.len()
    }

    /// The bytes of all cells, column by column.
    pub fn region(&self) -> (bytes: &[u8])
        ensures
            bytes@ == self.cells().data,
    {
        self.cells.region()
    }

    /// The result column at position `i`.
    pub fn descriptor(&self, i: usize) -> (d: &TypeDescriptor)
        requires
            i < self.descriptors().len(),
        ensures
            *d == self.descriptors()[i as int],
    {
        &self.descriptors[i]
    }

    /// Number of rows that a fetch can fill.
    pub fn batch(&self) -> (n: usize)
        ensures
            n == self.cells().batch,
    {
        self.cells.batch()
    }

    /// Number of rows that the last fetch filled.
    pub fn fetched(&self) -> (n: usize)
        ensures
            n == self.rows(),
    {
        self.rows
    }

    /// The handle on the cell of `column` in `row`, if there is such a cell.
    pub fn value(&self, column: usize, row: usize) -> (h: Option<ResultValue>)
        requires
            self.wf(),
        ensures
            h is Some <==> self.cells().has(column as int, row as int),
            h matches Some(x) ==> x == self.cells().handle(column as int, row as int)
                && self.cells().owns(x),
    {
        self.cells.handle(column, row)
    }

    /// Takes over what a fetch delivered for one cell: its bytes and its
    /// indicator. More bytes than the cell is wide are refused with
    /// [`CodecError::Truncation`], and the buffer stays as it is.
    pub fn store(&mut self, at: &ResultValue, bytes: &[u8], indicator: i16) -> (r: Result<
        (),
        CodecError,
    >)
        requires
            old(self).wf(),
            old(self).cells().owns(*at),
        ensures
            final(self).wf(),
            final(self).descriptors() == old(self).descriptors(),
            final(self).rows() == old(self).rows(),
            final(self).cells().same_layout(old(self).cells()),
            match r {
                Ok(_) => {
                    &&& bytes.len() <= at.capacity
                    &&& final(self).cells().cell(*at) == bytes@
                    &&& final(self).cells().indicator(*at) == indicator
                    &&& old(self).cells().written(final(self).cells(), *at, bytes@, indicator)
                    &&& old(self).cells().differs_only_at(final(self).cells(), *at)
                },
                Err(e) => {
                    &&& e == CodecError::Truncation
                    &&& bytes.len() > at.capacity
                    &&& final(self).cells() == old(self).cells()
                },
            },
    {
        if bytes.len() > at.capacity {
            return Err(CodecError::Truncation);
        }
        self.cells.write(at, bytes, indicator);
        Ok(())
    }

    /// Records how many rows a fetch filled. A count above the batch size
    /// is refused, and the buffer stays as it is.
    pub fn set_fetched(&mut self, rows: usize) -> (accepted: bool)
        requires
            old(self).wf(),
        ensures
            final(self).wf(),
            final(self).descriptors() == old(self).descriptors(),
            final(self).cells() == old(self).cells(),
            accepted == (rows <= old(self).cells().batch),
            final(self).rows() == if accepted {
                rows as nat
            } else {
                old(self).rows()
            },
    {
        if rows <= self.cells.batch() {
            self.rows = rows;
            true
        } else {
            false
        }
    }

    /// The view over one row: a handle on the cell of each column, in
    /// declaration order. Only the rows that the last fetch filled have one.
    pub fn row(&self, row: usize) -> (rs: Option<ResultSet>)
        requires
            self.wf(),
        ensures
            rs is Some <==> row < self.rows(),
            rs matches Some(view) ==> self.is_row(view, row as int),
    {
        if row >= self.rows {
            return None;
        }
        let mut values: Vec<ResultValue> = Vec::new();
        let mut i: usize = 0;
        while i < self.descriptors.len()
            invariant
                self.wf(),
                row < self.rows,
                i <= self.descriptors.len(),
                values.len() == i,
                forall|k: int|
                    0 <= k < i ==> #[trigger] values@[k] == self.cells().handle(k, row as int),
            decreases self.descriptors.len() - i,
        {
            match self.cells.handle(i, row) {
                Some(h) => {
                    values.push(h);
                },
                None => {
                    assert(false);
                },
            }
            i += 1;
        }
        Some(ResultSet { row, values })
    }

    /// The bytes of the cell `at` that hold data.
    pub fn cell(&self, at: &ResultValue) -> (bytes: &[u8])
        requires
            self.wf(),
            self.cells().owns(*at),
        ensures
            bytes@ == self.cells().cell(*at),
    {
        self.cells.read(at)
    }

    /// The indicator of the cell `at`.
    pub fn indicator(&self, at: &ResultValue) -> (indicator: i16)
        requires
            self.wf(),
            self.cells().owns(*at),
        ensures
            indicator == self.cells().indicator(*at),
    {
        self.cells.indicator(at)
    }

    /// Decodes the cell `at` to a value of the type of its column.
    pub fn decode(&self, at: &ResultValue) -> (r: Result<Option<Value>, CodecError>)
        requires
            self.wf(),
            self.cells().owns(*at),
        ensures
            match r {
                Ok(Some(v)) => decode_spec(
                    self.cells().cell(*at),
                    self.cells().indicator(*at),
                    self.sql_type(*at),
                ) == Ok::<Option<ValueView>, CodecError>(Some(v@)),
                Ok(None) => decode_spec(
                    self.cells().cell(*at),
                    self.cells().indicator(*at),
                    self.sql_type(*at),
                ) == Ok::<Option<ValueView>, CodecError>(None),
                Err(e) => decode_spec(
                    self.cells().cell(*at),
                    self.cells().indicator(*at),
                    self.sql_type(*at),
                ) == Err::<Option<ValueView>, CodecError>(e),
            },
    {
        let ty: SqlType = self.descriptors[at.column].sql_type;
        decode(self.cells.read(at), self.cells.indicator(at), ty)
    }
}

} // verus!
