//! Query results: metadata and row items, and the single-pass stream that
//! delivers them. A cell holds nothing for SQL NULL; reading a cell with
//! the wrong target type is a `TypeMismatch`, never a default value.

use vstd::prelude::*;
use vstd::string::StringExecFns;

use crate::errors::SqlError;
use crate::value::type_of;
use crate::value::SqlDate;
use crate::value::SqlType;
use crate::value::SqlValue;

verus! {

/// One column descriptor of a result set's metadata.
#[derive(Debug, PartialEq, Eq)]
pub struct Column {
    pub name: String,
    pub col_type: SqlType,
}

/// One data row: its cells in column order, nothing where the server sent
/// SQL NULL.
#[derive(Debug, PartialEq, Eq)]
pub struct RowData {
    pub cells: Vec<Option<SqlValue>>,
}

/// One item of a query's result stream: the column descriptors of the
/// upcoming rows, or one row of data. Exactly these two variants exist, so
/// a protocol extension forces every consumer to be revisited.
#[derive(Debug, PartialEq, Eq)]
pub enum QueryItem {
    Metadata(Vec<Column>),
    Row(RowData),
}

/// What a cell read yields: nothing for NULL, the value when its wire type
/// is the one asked for, and `TypeMismatch` otherwise — also for an
/// ordinal the row does not have.
pub open spec fn spec_get(cells: Seq<Option<SqlValue>>, ordinal: int, want: SqlType) -> Result<
    Option<SqlValue>,
    SqlError,
> {
    if !(0 <= ordinal < cells.len()) {
        Err(SqlError::TypeMismatch)
    } else {
        match cells[ordinal] {
            None => Ok(None),
            Some(v) => if type_of(v) == want {
                Ok(Some(v))
            } else {
                Err(SqlError::TypeMismatch)
            },
        }
    }
}

impl RowData {
    /// How many columns the row has.
    pub fn width(&self) -> (n: usize)
        ensures
            n == self.cells@.len(),
    {
        self.cells.len()
    }

    /// Reads a two-byte integer column.
    pub fn get_smallint(&self, ordinal: usize) -> (r: Result<Option<i16>, SqlError>)
        ensures
            (match spec_get(self.cells@, ordinal as int, SqlType::SmallInt) {
                Ok(None) => r == Ok::<Option<i16>, SqlError>(None),
                Ok(Some(v)) => (r matches Ok(Some(x)) && SqlValue::SmallInt(x) == v),
                Err(e) => r == Err::<Option<i16>, SqlError>(e),
            }),
    {
        if ordinal >= self.cells.len() {
            return Err(SqlError::TypeMismatch);
        }
        match &self.cells[ordinal] {
            None => Ok(None),
            Some(SqlValue::SmallInt(v)) => Ok(Some(*v)),
            Some(_) => Err(SqlError::TypeMismatch),
        }
    }

    /// Reads a four-byte integer column.
    pub fn get_int(&self, ordinal: usize) -> (r: Result<Option<i32>, SqlError>)
        ensures
            (match spec_get(self.cells@, ordinal as int, SqlType::Int) {
                Ok(None) => r == Ok::<Option<i32>, SqlError>(None),
                Ok(Some(v)) => (r matches Ok(Some(x)) && SqlValue::Int(x) == v),
                Err(e) => r == Err::<Option<i32>, SqlError>(e),
            }),
    {
        if ordinal >= self.cells.len() {
            return Err(SqlError::TypeMismatch);
        }
        match &self.cells[ordinal] {
            None => Ok(None),
            Some(SqlValue::Int(v)) => Ok(Some(*v)),
            Some(_) => Err(SqlError::TypeMismatch),
        }
    }

    /// Reads an eight-byte integer column.
    pub fn get_bigint(&self, ordinal: usize) -> (r: Result<Option<i64>, SqlError>)
        ensures
            (match spec_get(self.cells@, ordinal as int, SqlType::BigInt) {
                Ok(None) => r == Ok::<Option<i64>, SqlError>(None),
                Ok(Some(v)) => (r matches Ok(Some(x)) && SqlValue::BigInt(x) == v),
                Err(e) => r == Err::<Option<i64>, SqlError>(e),
            }),
    {
        if ordinal >= self.cells.len() {
            return Err(SqlError::TypeMismatch);
        }
        match &self.cells[ordinal] {
            None => Ok(None),
            Some(SqlValue::BigInt(v)) => Ok(Some(*v)),
            Some(_) => Err(SqlError::TypeMismatch),
        }
    }

    /// Reads a text column, copying the text out.
    pub fn get_varchar(&self, ordinal: usize) -> (r: Result<Option<String>, SqlError>)
        ensures
            (match spec_get(self.cells@, ordinal as int, SqlType::VarChar) {
                Ok(None) => r == Ok::<Option<String>, SqlError>(None),
                Ok(Some(v)) => (r matches Ok(Some(x)) && v matches SqlValue::VarChar(s) && x@
                    == s@),
                Err(e) => r == Err::<Option<String>, SqlError>(e),
            }),
    {
        if ordinal >= self.cells.len() {
            return Err(SqlError::TypeMismatch);
        }
        match &self.cells[ordinal] {
            None => Ok(None),
            Some(SqlValue::VarChar(v)) => {
                let copied = String::from_str(v.as_str());
                Ok(Some(copied))
            },
            Some(_) => Err(SqlError::TypeMismatch),
        }
    }

    /// Reads a bit column.
    pub fn get_bit(&self, ordinal: usize) -> (r: Result<Option<bool>, SqlError>)
        ensures
            (match spec_get(self.cells@, ordinal as int, SqlType::Bit) {
                Ok(None) => r == Ok::<Option<bool>, SqlError>(None),
                Ok(Some(v)) => (r matches Ok(Some(x)) && SqlValue::Bit(x) == v),
                Err(e) => r == Err::<Option<bool>, SqlError>(e),
            }),
    {
        if ordinal >= self.cells.len() {
            return Err(SqlError::TypeMismatch);
        }
        match &self.cells[ordinal] {
            None => Ok(None),
            Some(SqlValue::Bit(v)) => Ok(Some(*v)),
            Some(_) => Err(SqlError::TypeMismatch),
        }
    }

    /// Reads a date column.
    pub fn get_date(&self, ordinal: usize) -> (r: Result<Option<SqlDate>, SqlError>)
        ensures
            (match spec_get(self.cells@, ordinal as int, SqlType::Date) {
                Ok(None) => r == Ok::<Option<SqlDate>, SqlError>(None),
                Ok(Some(v)) => (r matches Ok(Some(x)) && SqlValue::Date(x) == v),
                Err(e) => r == Err::<Option<SqlDate>, SqlError>(e),
            }),
    {
        if ordinal >= self.cells.len() {
            return Err(SqlError::TypeMismatch);
        }
        match &self.cells[ordinal] {
            None => Ok(None),
            Some(SqlValue::Date(v)) => Ok(Some(*v)),
            Some(_) => Err(SqlError::TypeMismatch),
        }
    }
}

/// A forward-only stream of query items. Its view is the sequence of items
/// still to be delivered, in delivery order; the items sit back-to-front so
/// advancing pops. The stream is single-pass: once the view is empty it
/// stays empty, and nothing ever loops back.
pub struct RowStream {
    backlog: Vec<QueryItem>,
}

/// The delivery-order reading of a back-to-front backlog.
pub open spec fn stream_view(backlog: Seq<QueryItem>) -> Seq<QueryItem> {
    Seq::new(backlog.len(), |i: int| backlog[backlog.len() - 1 - i])
}

impl View for RowStream {
    type V = Seq<QueryItem>;

    closed spec fn view(&self) -> Seq<QueryItem> {
        stream_view(self.backlog@)
    }
}

impl RowStream {
    /// Wraps the items a response will deliver, in delivery order.
    pub fn from_items(items: Vec<QueryItem>) -> (r: RowStream)
        ensures
            r@ == items@,
    {
        let ghost all = items@;
        let mut src = items;
        let mut backlog: Vec<QueryItem> = Vec::new();
        loop
            invariant
                src@.len() + backlog@.len() == all.len(),
                src@ == all.take(src@.len() as int),
                forall|k: int| 0 <= k < backlog@.len() ==> backlog@[k] == all[all.len() - 1 - k],
            ensures
                src@.len() == 0,
                backlog@.len() == all.len(),
                forall|k: int| 0 <= k < backlog@.len() ==> backlog@[k] == all[all.len() - 1 - k],
            decreases src@.len(),
        {
            let popped = src.pop();
            match popped {
                None => {
                    break ;
                },
                Some(x) => {
                    proof {
                        assert(x == all[src@.len() as int]);
                    }
                    backlog.push(x);
                },
            }
        }
        let r = RowStream { backlog };
        proof {
            assert(r@ =~= all);
        }
        r
    }

    /// How many items remain to be delivered.
    pub fn remaining(&self) -> (n: usize)
        ensures
            n == self@.len(),
    {
        self.backlog.len()
    }

    /// Advances by one item: the head of the view, or nothing at
    /// end-of-stream — where every later call stays at nothing.
    pub fn next(&mut self) -> (r: Option<QueryItem>)
        ensures
            old(self)@.len() > 0 ==> (r matches Some(x) && x == old(self)@[0] && final(self)@
                == old(self)@.skip(1)),
            old(self)@.len() == 0 ==> r is None && final(self)@ == old(self)@,
    {
        let popped = self.backlog.pop();
        match popped {
            None => None,
            Some(x) => {
                proof {
                    assert(final(self)@ =~= old(self)@.skip(1));
                }
                Some(x)
            },
        }
    }
}

/// What the server answers to a query submission: the frames of its result
/// data in delivery order, or a statement fault reported verbatim.
#[derive(Debug, PartialEq, Eq)]
pub enum QueryResponse {
    ResultData { items: Vec<QueryItem> },
    ServerFault { code: u32, message: String },
}

/// The frames one result set of `rows` rows presents: a single metadata
/// item, then the rows in their order.
pub open spec fn result_set_items(columns: Vec<Column>, rows: Seq<RowData>) -> Seq<QueryItem> {
    seq![QueryItem::Metadata(columns)] + rows.map_values(|r: RowData| QueryItem::Row(r))
}

impl QueryResponse {
    /// Builds the well-formed response of one result set.
    pub fn result_set(columns: Vec<Column>, rows: Vec<RowData>) -> (r: QueryResponse)
        ensures
            (r matches QueryResponse::ResultData { items } && items@ == result_set_items(
                columns,
                rows@,
            )),
    {
        let ghost all = rows@;
        let mut items: Vec<QueryItem> = Vec::new();
        items.push(QueryItem::Metadata(columns));
        let mut src = rows;
        let total = src.len();
        let mut taken: usize = 0;
        loop
            invariant
                all.len() == total,
                taken + src@.len() == all.len(),
                src@ == all.skip(taken as int),
                items@.len() == 1 + taken,
                items@[0] == QueryItem::Metadata(columns),
                forall|k: int| 0 <= k < taken ==> items@[k + 1] == QueryItem::Row(all[k]),
            ensures
                src@.len() == 0,
                taken == all.len(),
                items@.len() == 1 + taken,
                items@[0] == QueryItem::Metadata(columns),
                forall|k: int| 0 <= k < taken ==> items@[k + 1] == QueryItem::Row(all[k]),
            decreases src@.len(),
        {
            if src.len() == 0 {
                break ;
            }
            let row = src.remove(0);
            proof {
                assert(row == all[taken as int]);
                assert(src@ =~= all.skip(taken as int + 1));
            }
            items.push(QueryItem::Row(row));
            taken = taken + 1;
        }
        proof {
            assert(items@ =~= result_set_items(columns, all));
        }
        QueryResponse::ResultData { items }
    }
}

/// Law (result-set shape): the frames of a query returning `rows` hold the
/// metadata first and then, in order, exactly one `Row` item per row —
/// `rows.len()` of them and nothing after.
pub proof fn lemma_result_set_shape(columns: Vec<Column>, rows: Seq<RowData>)
    ensures
        result_set_items(columns, rows).len() == 1 + rows.len(),
        result_set_items(columns, rows)[0] == QueryItem::Metadata(columns),
        forall|k: int|
            0 <= k < rows.len() ==> result_set_items(columns, rows)[k + 1] == QueryItem::Row(
                rows[k],
            ),
{
}

} // verus!
