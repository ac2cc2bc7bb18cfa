//! The values that travel between the change feed, the matcher and its
//! subscribers.

use vstd::prelude::*;

verus! {

/// Whether a row delta adds or refreshes a row of the result set, or removes one.
#[derive(Clone, Copy, Debug, PartialEq, Eq, Structural)]
pub enum ChangeType {
    Upsert,
    Delete,
}

/// What happened to a row of a base table.
#[derive(Clone, Copy, Debug, PartialEq, Eq, Structural)]
pub enum ChangeEvent {
    Insert,
    Update,
    Delete,
}

/// A value of the database. A real number is kept as the bits of its
/// double-precision form.
#[derive(Clone, Debug, PartialEq, Eq)]
pub enum SqliteValue {
    Null,
    Integer(i64),
    Real(u64),
    Text(String),
    Blob(Vec<u8>),
}

/// `SqliteValue` with text as a view.
pub ghost enum ValueView {
    Null,
    Integer(i64),
    Real(u64),
    Text(Seq<char>),
    Blob(Seq<u8>),
}

impl View for SqliteValue {
    type V = ValueView;

    open spec fn view(&self) -> ValueView {
        match self {
            SqliteValue::Null => ValueView::Null,
            SqliteValue::Integer(i) => ValueView::Integer(*i),
            SqliteValue::Real(bits) => ValueView::Real(*bits),
            SqliteValue::Text(s) => ValueView::Text(s@),
            SqliteValue::Blob(b) => ValueView::Blob(b@),
        }
    }
}

/// The views of a list of values.
pub open spec fn value_views(v: Seq<SqliteValue>) -> Seq<ValueView> {
    Seq::new(v.len(), |i: int| v[i]@)
}

impl SqliteValue {
    /// A copy of the value.
    pub fn duplicate(&self) -> (r: SqliteValue)
        ensures
            r@ == self@,
    {
        match self {
            SqliteValue::Null => SqliteValue::Null,
            SqliteValue::Integer(i) => SqliteValue::Integer(*i),
            SqliteValue::Real(bits) => SqliteValue::Real(*bits),
            SqliteValue::Text(s) => SqliteValue::Text(s.clone()),
            SqliteValue::Blob(b) => {
                let mut copy: Vec<u8> = Vec::new();
                let mut i: usize = 0;
                while i < b.len()
                    invariant
                        i <= b.len(),
                        copy@ == b@.take(i as int),
                    decreases b.len() - i,
                {
                    copy.push(b[i]);
                    assert(copy@ =~= b@.take(i + 1));
                    i = i + 1;
                }
                assert(b@.take(b.len() as int) =~= b@);
                SqliteValue::Blob(copy)
            },
        }
    }
}

/// A copy of a list of values.
pub fn duplicate_values(v: &Vec<SqliteValue>) -> (r: Vec<SqliteValue>)
    ensures
        value_views(r@) == value_views(v@),
{
    let mut r: Vec<SqliteValue> = Vec::new();
    let mut i: usize = 0;
    while i < v.len()
        invariant
            i <= v.len(),
            r@.len() == i,
            forall|k: int| 0 <= k < i ==> (#[trigger] r@[k])@ == v@[k]@,
        decreases v.len() - i,
    {
        r.push(v[i].duplicate());
        i = i + 1;
    }
    assert(value_views(r@) =~= value_views(v@));
    r
}

/// One named value of a change.
#[derive(Clone, Debug, PartialEq, Eq)]
pub struct NamedValue {
    pub column: String,
    pub value: SqliteValue,
}

/// A row-level change of a base table, as the change feed reports it: the
/// table, the values of the row's primary key by column, the kind of change
/// and the changed data by column.
#[derive(Clone, Debug, PartialEq, Eq)]
pub struct AggregateChange {
    pub actor_id: u128,
    pub version: i64,
    pub table: String,
    pub pk: Vec<NamedValue>,
    pub evt_type: ChangeEvent,
    pub data: Vec<NamedValue>,
}

/// What a matcher tells its subscribers.
#[derive(Clone, Debug, PartialEq, Eq)]
pub enum RowResult {
    /// The names of the result's columns; the first message of a snapshot.
    Columns(Vec<String>),
    /// One row that entered, changed in or left the result.
    Row { rowid: i64, change_type: ChangeType, cells: Vec<SqliteValue> },
    /// The end of the snapshot.
    EndOfQuery,
    /// The matcher failed; nothing follows.
    Error(String),
}

/// `RowResult` with its strings and values as views.
pub ghost enum RowView {
    Columns(Seq<Seq<char>>),
    Row { rowid: i64, change_type: ChangeType, cells: Seq<ValueView> },
    EndOfQuery,
    Error(Seq<char>),
}

impl View for RowResult {
    type V = RowView;

    open spec fn view(&self) -> RowView {
        match self {
            RowResult::Columns(names) => RowView::Columns(crate::text::views(names@)),
            RowResult::Row { rowid, change_type, cells } => RowView::Row {
                rowid: *rowid,
                change_type: *change_type,
                cells: value_views(cells@),
            },
            RowResult::EndOfQuery => RowView::EndOfQuery,
            RowResult::Error(m) => RowView::Error(m@),
        }
    }
}

} // verus!
