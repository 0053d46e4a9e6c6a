//! Batches of the single table: rows of messages, gathered column by column.

use vstd::prelude::*;

use crate::arrow_data::{
    batch_columns, batch_fields, batch_rows, cell_bytes, column_bytes, record_batch, ArrowBatch,
    ArrowType, BatchColumn, Cell, ColumnData,
};
use crate::connector::{ConnectorError, ConnectorFailure};
use crate::fluss_schema::{cells, simple_arrow_fields, simple_arrow_type, Datum};
use crate::message::ConsumedMessage;
use crate::schema::{
    column_name, column_type, column_value, row_cells, table_columns, ColumnKind, FlussTableLayout,
    RowContext, RowOrigin,
};

verus! {

/// The Arrow type of a column.
pub open spec fn column_arrow_type(kind: ColumnKind) -> ArrowType {
    simple_arrow_type(column_type(kind).kind)->0
}

/// The Arrow type that a cell fits.
pub open spec fn cell_arrow_type(cell: Cell) -> ArrowType {
    match cell {
        Cell::Text(_) => ArrowType::Utf8,
        Cell::Long(_) => ArrowType::Int64,
        Cell::Blob(_) => ArrowType::Binary,
        Cell::Other(name) => ArrowType::Other(name),
    }
}

/// A row has one cell for each column, which is the value of the column and fits its type.
pub proof fn lemma_row(kinds: Seq<ColumnKind>, message: ConsumedMessage, origin: RowOrigin)
    requires
        row_cells(kinds, message, origin) is Ok,
    ensures
        row_cells(kinds, message, origin)->Ok_0.len() == kinds.len(),
        forall|j: int|
            0 <= j < kinds.len() ==> {
                let cell = #[trigger] row_cells(kinds, message, origin)->Ok_0[j];
                &&& column_value(kinds[j], message, origin) == Ok::<Cell, ConnectorFailure>(cell)
                &&& cell_arrow_type(cell) == column_arrow_type(kinds[j])
            },
    decreases kinds.len(),
{
    if kinds.len() > 0 {
        lemma_row(kinds.drop_last(), message, origin);
        let row = row_cells(kinds, message, origin)->Ok_0;
        let shorter = row_cells(kinds.drop_last(), message, origin)->Ok_0;
        assert forall|j: int| 0 <= j < kinds.len() implies {
            let cell = #[trigger] row[j];
            &&& column_value(kinds[j], message, origin) == Ok::<Cell, ConnectorFailure>(cell)
            &&& cell_arrow_type(cell) == column_arrow_type(kinds[j])
        } by {
            if j < kinds.len() - 1 {
                assert(row[j] == shorter[j]);
            }
        }
    }
}

/// The cells of one column of some rows.
pub open spec fn column_cells(rows: Seq<Seq<Cell>>, column: int) -> Seq<Cell> {
    rows.map_values(|row: Seq<Cell>| row[column])
}

/// The columns of the batch that rows make.
pub open spec fn rows_batch(kinds: Seq<ColumnKind>, rows: Seq<Seq<Cell>>) -> Seq<BatchColumn> {
    Seq::new(
        kinds.len(),
        |j: int| BatchColumn { name: column_name(kinds[j]), cells: column_cells(rows, j) },
    )
}

/// Whether each column of some rows is no longer than offsets of 32 bits reach.
pub open spec fn rows_fit(kinds: Seq<ColumnKind>, rows: Seq<Seq<Cell>>) -> bool {
    forall|j: int|
        0 <= j < kinds.len() ==> #[trigger] column_bytes(column_cells(rows, j)) <= i32::MAX
}

/// A column of the given kind without cells.
fn empty_column(kind: ColumnKind) -> (column: ColumnData)
    ensures
        column@ == Seq::<Cell>::empty(),
        column.arrow_type() == column_arrow_type(kind),
{
    let column = match kind {
        ColumnKind::PartitionId => ColumnData::Long(Vec::new()),
        ColumnKind::BinaryPayload => ColumnData::Blob(Vec::new()),
        _ => ColumnData::Text(Vec::new()),
    };
    assert(column@ =~= Seq::empty());
    column
}

/// Adds a cell to a column.
fn push_cell(column: &mut ColumnData, value: Datum)
    requires
        cell_arrow_type(value@) == old(column).arrow_type(),
    ensures
        final(column)@ == old(column)@.push(value@),
        final(column).arrow_type() == old(column).arrow_type(),
{
    let ghost before = column@;
    match column {
        ColumnData::Text(texts) => {
            if let Datum::Text(text) = value {
                texts.push(text);
            }
        },
        ColumnData::Long(numbers) => {
            if let Datum::Long(number) = value {
                numbers.push(number);
            }
        },
        ColumnData::Blob(blobs) => {
            if let Datum::Blob(blob) = value {
                blobs.push(blob);
            }
        },
    }
    assert(column@ =~= before.push(value@));
}

/// The first cells take no more bytes than all.
proof fn lemma_bytes_of_first(cells: Seq<Cell>, count: int)
    requires
        0 <= count <= cells.len(),
    ensures
        column_bytes(cells.take(count)) <= column_bytes(cells),
    decreases cells.len() - count,
{
    if count < cells.len() {
        assert(cells.take(count + 1).drop_last() =~= cells.take(count));
        lemma_bytes_of_first(cells, count + 1);
    } else {
        assert(cells.take(count) =~= cells);
    }
}

/// Whether a column is no longer than offsets of 32 bits reach.
fn column_fits(column: &ColumnData) -> (fits: bool)
    ensures
        fits == (column_bytes(column@) <= i32::MAX),
{
    let count: usize = match column {
        ColumnData::Text(texts) => texts.len(),
        ColumnData::Long(numbers) => numbers.len(),
        ColumnData::Blob(blobs) => blobs.len(),
    };
    let limit: usize = 0x7fff_ffff;
    let mut total: usize = 0;
    let mut index: usize = 0;
    assert(column@.take(0) =~= Seq::empty());
    while index < count
        invariant
            index <= count == column@.len(),
            total == column_bytes(column@.take(index as int)),
            total <= limit == i32::MAX,
        decreases count - index,
    {
        let size: usize = match column {
            ColumnData::Text(texts) => texts[index].as_str().as_bytes().len(),
            ColumnData::Long(_) => 0,
            ColumnData::Blob(blobs) => blobs[index].len(),
        };
        assert(size == cell_bytes(column@[index as int]));
        assert(column@.take(index + 1).drop_last() =~= column@.take(index as int));
        if size > limit - total {
            proof {
                lemma_bytes_of_first(column@, index + 1);
            }
            return false;
        }
        total = total + size;
        index = index + 1;
    }
    assert(column@.take(index as int) =~= column@);
    true
}

/// Gathers the rows of messages for the single table.
pub struct SingleTableBatchBuilder<'a> {
    layout: &'a FlussTableLayout,
    context: RowContext<'a>,
    columns: Vec<ColumnData>,
}

impl<'a> SingleTableBatchBuilder<'a> {
    /// The columns of the table.
    pub closed spec fn kinds(self) -> Seq<ColumnKind> {
        self.layout.columns()
    }

    /// Where the messages come from.
    pub closed spec fn origin(self) -> RowOrigin {
        self.context@
    }

    /// The rows that were gathered, in their order.
    pub closed spec fn rows(self) -> Seq<Seq<Cell>> {
        Seq::new(
            self.columns@[0]@.len(),
            |i: int| Seq::new(self.columns@.len(), |j: int| self.columns@[j]@[i]),
        )
    }

    /// Whether there is one column for each of the table, of its type, and all have as many
    /// cells.
    pub closed spec fn well_formed(self) -> bool {
        &&& self.layout.well_formed()
        &&& self.columns@.len() == self.layout.columns().len()
        &&& forall|j: int|
            0 <= j < self.columns@.len() ==> {
                &&& (#[trigger] self.columns@[j]).arrow_type() == column_arrow_type(
                    self.layout.columns()[j],
                )
                &&& self.columns@[j]@.len() == self.columns@[0]@.len()
            }
    }

    /// A builder without rows.
    pub fn new(layout: &'a FlussTableLayout, context: RowContext<'a>) -> (builder: Self)
        requires
            layout.well_formed(),
        ensures
            builder.well_formed(),
            builder.kinds() == layout.columns(),
            builder.origin() == context@,
            builder.rows() == Seq::<Seq<Cell>>::empty(),
    {
        let kinds = layout.column_kinds();
        let mut columns: Vec<ColumnData> = Vec::with_capacity(kinds.len());
        let mut index: usize = 0;
        while index < kinds.len()
            invariant
                kinds@ == layout.columns(),
                index == columns@.len(),
                index <= kinds@.len(),
                forall|j: int|
                    0 <= j < index ==> {
                        &&& (#[trigger] columns@[j]).arrow_type() == column_arrow_type(kinds@[j])
                        &&& columns@[j]@ == Seq::<Cell>::empty()
                    },
            decreases kinds@.len() - index,
        {
            columns.push(empty_column(kinds[index]));
            index = index + 1;
        }
        let builder = SingleTableBatchBuilder { layout, context, columns };
        assert(builder.rows() =~= Seq::empty());
        builder
    }

    /// Adds the row of a message.
    pub fn append(&mut self, message: &ConsumedMessage) -> (outcome: Result<(), ConnectorError>)
        requires
            old(self).well_formed(),
        ensures
            final(self).well_formed(),
            final(self).kinds() == old(self).kinds(),
            final(self).origin() == old(self).origin(),
            match row_cells(old(self).kinds(), *message, old(self).origin()) {
                Ok(row) => {
                    &&& outcome is Ok
                    &&& final(self).rows() == old(self).rows().push(row)
                },
                Err(failure) => {
                    &&& outcome matches Err(error)
                    &&& error@ == failure
                    &&& final(self).rows() == old(self).rows()
                },
            },
    {
        let mut values = match self.layout.row_values(message, self.context) {
            Ok(values) => values,
            Err(error) => {
                return Err(error);
            },
        };
        let ghost row = cells(values@);
        let ghost kinds = self.layout.columns();
        let ghost before = self.columns@;
        proof {
            lemma_row(kinds, *message, self.context@);
        }
        let mut left: usize = values.len();
        while left > 0
            invariant
                left == values@.len(),
                left <= before.len() == row.len(),
                self.layout == old(self).layout,
                self.context == old(self).context,
                before == old(self).columns@,
                kinds == self.layout.columns(),
                kinds.len() == before.len(),
                old(self).well_formed(),
                cells(values@) == row.take(left as int),
                self.columns@.len() == before.len(),
                forall|j: int|
                    0 <= j < row.len() ==> cell_arrow_type(#[trigger] row[j]) == column_arrow_type(
                        kinds[j],
                    ),
                forall|j: int| 0 <= j < left ==> self.columns@[j] == before[j],
                forall|j: int|
                    left <= j < before.len() ==> {
                        &&& (#[trigger] self.columns@[j])@ == before[j]@.push(row[j])
                        &&& self.columns@[j].arrow_type() == before[j].arrow_type()
                    },
            decreases left,
        {
            let ghost remaining = values@;
            left = left - 1;
            if let Some(value) = values.pop() {
                assert(value@ == cells(remaining)[left as int]);
                assert(value@ == row[left as int]);
                assert(before[left as int].arrow_type() == column_arrow_type(kinds[left as int]));
                push_cell(&mut self.columns[left], value);
                assert(cells(values@) =~= row.take(left as int));
            }
        }
        assert(self.rows() =~= old(self).rows().push(row)) by {
            assert forall|i: int| 0 <= i < self.rows().len() implies self.rows()[i]
                =~= old(self).rows().push(row)[i] by {
                assert forall|j: int| 0 <= j < before.len() implies self.rows()[i][j] == old(
                    self,
                ).rows().push(row)[i][j] by {
                    assert(self.columns@[j]@ == before[j]@.push(row[j]));
                    assert(before[j]@.len() == before[0]@.len());
                }
            }
        }
        Ok(())
    }

    /// The batch of the rows, or `None` where a column is longer than offsets of 32 bits reach.
    pub fn finish(self) -> (batch: Option<ArrowBatch>)
        requires
            self.well_formed(),
        ensures
            batch is Some <==> rows_fit(self.kinds(), self.rows()),
            batch matches Some(batch) ==> {
                &&& batch_fields(batch) == simple_arrow_fields(table_columns(self.kinds()))
                &&& batch_rows(batch) == self.rows().len()
                &&& batch_columns(batch) == rows_batch(self.kinds(), self.rows())
            },
    {
        let ghost kinds = self.layout.columns();
        let ghost rows = self.rows();
        assert forall|j: int| 0 <= j < kinds.len() implies self.columns@[j]@
            == #[trigger] column_cells(rows, j) by {
            assert(self.columns@[j]@ =~= column_cells(rows, j));
        }
        let columns = self.columns;
        let mut index: usize = 0;
        while index < columns.len()
            invariant
                index <= columns@.len() == kinds.len(),
                kinds == self.kinds(),
                rows == self.rows(),
                forall|j: int|
                    0 <= j < kinds.len() ==> columns@[j]@ == #[trigger] column_cells(rows, j),
                forall|j: int|
                    0 <= j < index ==> column_bytes((#[trigger] columns@[j])@) <= i32::MAX,
            decreases columns@.len() - index,
        {
            if !column_fits(&columns[index]) {
                assert(column_bytes(column_cells(rows, index as int)) > i32::MAX);
                return None;
            }
            index = index + 1;
        }
        let schema = match self.layout.arrow_schema() {
            Ok(schema) => schema,
            Err(_) => {
                return None;
            },
        };
        match record_batch(schema, columns) {
            Ok(batch) => {
                assert(batch_columns(batch) =~= rows_batch(kinds, rows));
                Some(batch)
            },
            Err(_) => None,
        }
    }
}

} // verus!
