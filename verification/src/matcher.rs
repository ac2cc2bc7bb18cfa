//! The matcher: the descriptor of one watched statement, and what it does
//! with a change.

use std::sync::Arc;
use tokio::sync::{broadcast, mpsc};
use tokio_util::sync::CancellationToken;
use vstd::hash_map::StringHashMap;
use vstd::prelude::*;
use crate::analyze::ParsedSelect;
use crate::channel::{
    broadcast_receivers, broadcast_send, broadcast_subscribe, clone_token, command_channel,
    try_enqueue,
};
use crate::error::{ErrorView, MatcherError};
use crate::ident::{
    id_text, id_text_spec, qualified_table, qualified_table_spec, query_table, query_table_spec,
};
use crate::aliases::{AliasPairs, shown_name};
use crate::analysis::Tables;
use crate::ordered::{
    Entries, NameMap, distinct_keys, entries, key_index, keys, lemma_key_index_is, map_get,
};
use crate::rewrite::{
    Rewrite, TableFilter, filters_match, lemma_pk_map_direct, pk_aliases_spec, pk_map_spec,
};
use crate::sql::{
    create_spec, create_sql, delete_spec, delete_sql, drop_spec, drop_sql, snapshot_spec,
    snapshot_sql, temp_query, temp_query_spec, upsert_spec, upsert_sql,
};
use crate::text::{strip_semicolon, strip_semicolon_spec, views};
use crate::values::{
    AggregateChange, ChangeType, NamedValue, RowResult, RowView, SqliteValue, ValueView,
    duplicate_values, value_views,
};

verus! {

/// The two probes of one referenced table: the rewritten statement bound to
/// one row of the table, and the read of the same row from the shadow table.
#[derive(Debug)]
pub struct MatcherStmt {
    new_query: String,
    temp_query: String,
}

/// `MatcherStmt` with its texts as views.
pub ghost struct StmtView {
    pub new_query: Seq<char>,
    pub temp_query: Seq<char>,
}

impl View for MatcherStmt {
    type V = StmtView;

    closed spec fn view(&self) -> StmtView {
        StmtView { new_query: self.new_query@, temp_query: self.temp_query@ }
    }
}

impl MatcherStmt {
    /// The probes of one table, from their texts.
    pub fn new(new_query: String, temp_query: String) -> (s: Self)
        ensures
            s@ == (StmtView { new_query: new_query@, temp_query: temp_query@ }),
    {
        MatcherStmt { new_query, temp_query }
    }

    /// The rewritten statement, bound to one row of the table.
    pub fn new_query(&self) -> (r: &String)
        ensures
            r@ == self@.new_query,
    {
        &self.new_query
    }

    /// The read of the same row from the shadow table.
    pub fn temp_query(&self) -> (r: &String)
        ensures
            r@ == self@.temp_query,
    {
        &self.temp_query
    }

    /// A copy of the probes.
    pub fn duplicate(&self) -> (r: Self)
        ensures
            r@ == self@,
    {
        MatcherStmt { new_query: self.new_query.clone(), temp_query: self.temp_query.clone() }
    }
}

/// What a matcher is asked to do.
pub enum MatcherCmd {
    /// Probe one row: the probes of the changed table and the values of the
    /// row's primary key.
    ProcessChange(MatcherStmt, Vec<SqliteValue>),
    /// A subscriber has left.
    Unsubscribe,
}

/// The capacity of a matcher's inbox of commands.
pub const COMMAND_CAPACITY: usize = 512;

/// The descriptor behind a `Matcher`. Nothing in it changes after
/// construction.
pub struct InnerMatcher {
    pub id: u128,
    /// The rewritten statement, not bound to any row.
    pub query: String,
    pub statements: StringHashMap<MatcherStmt>,
    /// The synthetic primary-key columns by table.
    pub pks: NameMap,
    /// The declared primary-key columns by table.
    pub keys: NameMap,
    pub parsed: ParsedSelect,
    pub query_table: String,
    pub qualified_table_name: String,
    pub change_tx: broadcast::Sender<RowResult>,
    pub cmd_tx: mpsc::Sender<MatcherCmd>,
    pub col_names: Vec<String>,
    pub cancel: CancellationToken,
}

/// A live query: a handle on its descriptor, cheap to copy.
#[derive(Clone)]
pub struct Matcher(pub Arc<InnerMatcher>);

/// The views of the statements of a map.
pub open spec fn stmt_views(m: Map<Seq<char>, MatcherStmt>) -> Map<Seq<char>, StmtView> {
    Map::new(|t: Seq<char>| m.contains_key(t), |t: Seq<char>| m[t]@)
}

/// The probes of `table`, whose rewritten statement was rendered as
/// `rendered`; none where the table has no synthetic primary-key columns.
pub open spec fn statement_for(pks: Entries, n: nat, shadow: Seq<char>, table: Seq<char>, rendered: Seq<char>) -> Option<
    StmtView,
> {
    match key_index(pks, table) {
        Some(i) => Some(
            StmtView {
                new_query: strip_semicolon_spec(rendered),
                temp_query: temp_query_spec(pks, n, shadow, pks[i].1),
            },
        ),
        None => None,
    }
}

/// The probes of the first `k` filtered tables, by table; none where one of
/// the tables has no synthetic primary-key columns.
pub open spec fn statements_spec(
    filters: Seq<TableFilter>,
    rendered: Seq<String>,
    pks: Entries,
    n: nat,
    shadow: Seq<char>,
    k: nat,
) -> Option<Map<Seq<char>, StmtView>>
    decreases k,
{
    if k == 0 || k > filters.len() || k > rendered.len() {
        Some(Map::empty())
    } else {
        match statements_spec(filters, rendered, pks, n, shadow, (k - 1) as nat) {
            None => None,
            Some(m) => match statement_for(pks, n, shadow, filters[k - 1].table@, rendered[k - 1]@) {
                None => None,
                Some(s) => Some(m.insert(filters[k - 1].table@, s)),
            },
        }
    }
}

/// The value that `pk` holds for `column`: that of the first item so named.
pub open spec fn value_of(pk: Seq<NamedValue>, column: Seq<char>, n: nat) -> Option<ValueView>
    decreases n,
{
    if n == 0 || n > pk.len() {
        None
    } else {
        match value_of(pk, column, (n - 1) as nat) {
            Some(v) => Some(v),
            None => if pk[n - 1].column@ == column {
                Some(pk[n - 1].value@)
            } else {
                None
            },
        }
    }
}

/// The values that `pk` holds for the first `n` of `keys`, in the order of
/// `keys`; or the first of them for which it holds none.
pub open spec fn key_values(keys: Seq<Seq<char>>, pk: Seq<NamedValue>, n: nat) -> Result<
    Seq<ValueView>,
    Seq<char>,
>
    decreases n,
{
    if n == 0 || n > keys.len() {
        Ok(Seq::empty())
    } else {
        match key_values(keys, pk, (n - 1) as nat) {
            Err(c) => Err(c),
            Ok(vs) => match value_of(pk, keys[n - 1], pk.len()) {
                Some(v) => Ok(vs.push(v)),
                None => Err(keys[n - 1]),
            },
        }
    }
}

/// A missing value among the first `k` keys is missing among all.
proof fn lemma_key_values_error(keys: Seq<Seq<char>>, pk: Seq<NamedValue>, k: nat, n: nat)
    requires
        k <= n <= keys.len(),
        key_values(keys, pk, k) is Err,
    ensures
        key_values(keys, pk, n) == key_values(keys, pk, k),
    decreases n,
{
    if k < n {
        lemma_key_values_error(keys, pk, k, (n - 1) as nat);
    }
}

/// The value that `pk` holds for `column`.
fn find_value<'a>(pk: &'a Vec<NamedValue>, column: &String) -> (r: Option<&'a SqliteValue>)
    ensures
        match r {
            Some(v) => value_of(pk@, column@, pk@.len()) == Some(v@),
            None => value_of(pk@, column@, pk@.len()) is None,
        },
{
    let mut i: usize = 0;
    while i < pk.len()
        invariant
            i <= pk.len(),
            value_of(pk@, column@, i as nat) is None,
        decreases pk.len() - i,
    {
        if pk[i].column == *column {
            proof {
                lemma_value_found(pk@, column@, (i + 1) as nat, pk@.len());
            }
            return Some(&pk[i].value);
        }
        i = i + 1;
    }
    None
}

/// A value found among the first `k` items is the value found among all.
proof fn lemma_value_found(pk: Seq<NamedValue>, column: Seq<char>, k: nat, n: nat)
    requires
        k <= n <= pk.len(),
        value_of(pk, column, k) is Some,
    ensures
        value_of(pk, column, n) == value_of(pk, column, k),
    decreases n,
{
    if k < n {
        lemma_value_found(pk, column, k, (n - 1) as nat);
    }
}

/// What becomes of a command that the inbox took or refused.
pub fn enqueue_outcome(sent: bool) -> (r: Result<(), MatcherError>)
    ensures
        sent ==> r is Ok,
        !sent ==> r is Err && r->Err_0@ == ErrorView::ChangeQueueClosedOrFull,
{
    if sent {
        Ok(())
    } else {
        Err(MatcherError::ChangeQueueClosedOrFull)
    }
}

/// What becomes of a row delta that the broadcast took or refused.
pub fn publish_outcome(sent: bool) -> (r: Result<(), MatcherError>)
    ensures
        sent ==> r is Ok,
        !sent ==> r is Err && r->Err_0@ == ErrorView::ChangeReceiverClosed,
{
    if sent {
        Ok(())
    } else {
        Err(MatcherError::ChangeReceiverClosed)
    }
}

/// The statements of one change, with the values to bind to each of them.
pub struct ChangeProbe {
    pub upsert: String,
    pub delete: String,
    /// The values of the row's primary key, twice over: once for each of the
    /// two statements that a probe is made of.
    pub params: Vec<SqliteValue>,
}

/// What the cursor of a probe handed back.
pub enum Probed {
    /// A row: its rowid, or the database's message where it could not be
    /// read, and its cells where they could be read.
    Row { rowid: Result<i64, String>, cells: Option<Vec<SqliteValue>> },
    /// No row: the cursor is at its end, or it failed.
    End,
}

/// What to do after a probe's cursor was asked for a row.
pub enum RowStep {
    /// Tell the subscribers, then ask for the next row.
    Publish(RowResult),
    /// The probe is done: go on with the next probe, or commit after the last.
    Finish,
    /// The row's cells could not be read: end the change here, without
    /// commit and without error.
    Stop,
    /// End the change with this error, without commit.
    Fail(MatcherError),
}

/// `RowStep` over views.
pub ghost enum RowStepView {
    Publish(RowView),
    Finish,
    Stop,
    Fail(ErrorView),
}

impl View for RowStep {
    type V = RowStepView;

    open spec fn view(&self) -> RowStepView {
        match self {
            RowStep::Publish(row) => RowStepView::Publish(row@),
            RowStep::Finish => RowStepView::Finish,
            RowStep::Stop => RowStepView::Stop,
            RowStep::Fail(e) => RowStepView::Fail(e@),
        }
    }
}

/// What follows from what a probe's cursor handed back: a row that was read
/// becomes a delta of the probe's kind; a row without rowid fails the
/// change; a row without cells stops it; no row finishes the probe.
pub open spec fn row_step_spec(change_type: ChangeType, probed: Probed) -> RowStepView {
    match probed {
        Probed::Row { rowid: Err(message), cells } => RowStepView::Fail(ErrorView::Sqlite(message@)),
        Probed::Row { rowid: Ok(rowid), cells: None } => RowStepView::Stop,
        Probed::Row { rowid: Ok(rowid), cells: Some(cells) } => RowStepView::Publish(
            RowView::Row { rowid, change_type, cells: value_views(cells@) },
        ),
        Probed::End => RowStepView::Finish,
    }
}

/// Decides what to do after a probe's cursor was asked for a row.
pub fn row_step(change_type: ChangeType, probed: Probed) -> (r: RowStep)
    ensures
        r@ == row_step_spec(change_type, probed),
{
    match probed {
        Probed::Row { rowid: Err(message), cells } => RowStep::Fail(MatcherError::Sqlite(message)),
        Probed::Row { rowid: Ok(rowid), cells: None } => RowStep::Stop,
        Probed::Row { rowid: Ok(rowid), cells: Some(cells) } => RowStep::Publish(
            RowResult::Row { rowid, change_type, cells },
        ),
        Probed::End => RowStep::Finish,
    }
}

impl Matcher {
    /// The probes by table, as views.
    pub open spec fn statement_views(&self) -> Map<Seq<char>, StmtView> {
        stmt_views(self.0.statements@)
    }

    /// Builds the matcher of a rewritten statement. `query` is the rewritten
    /// statement as text, `new_queries` the same with the filter of each
    /// referenced table, in the order of the tables; a semicolon that ends
    /// one of them is dropped. With the matcher comes the receiving end of
    /// its inbox.
    pub fn new(
        id: u128,
        rewrite: Rewrite,
        query: String,
        new_queries: Vec<String>,
        col_names: Vec<String>,
        change_tx: broadcast::Sender<RowResult>,
        cancel: CancellationToken,
    ) -> (r: Result<(Matcher, mpsc::Receiver<MatcherCmd>), MatcherError>)
        ensures
            match r {
                Ok(pair) => {
                    let m = pair.0;
                    &&& new_queries.len() == rewrite.filters.len()
                    &&& statements_spec(
                        rewrite.filters@,
                        new_queries@,
                        entries(rewrite.pks),
                        rewrite.parsed@.columns.len(),
                        query_table_spec(id),
                        new_queries.len() as nat,
                    ) == Some(m.statement_views())
                    &&& m.0.id == id
                    &&& m.0.query@ == strip_semicolon_spec(query@)
                    &&& m.0.query_table@ == query_table_spec(id)
                    &&& m.0.qualified_table_name@ == qualified_table_spec(id)
                    &&& m.0.col_names == col_names
                    &&& m.0.parsed == rewrite.parsed
                    &&& m.0.pks == rewrite.pks
                    &&& m.0.keys == rewrite.keys
                },
                Err(e) => if new_queries.len() != rewrite.filters.len() {
                    e@ == ErrorView::StatementRequired
                } else {
                    &&& e@ == ErrorView::MissingPrimaryKeys
                    &&& statements_spec(
                        rewrite.filters@,
                        new_queries@,
                        entries(rewrite.pks),
                        rewrite.parsed@.columns.len(),
                        query_table_spec(id),
                        new_queries.len() as nat,
                    ) is None
                },
            },
    {
        if new_queries.len() != rewrite.filters.len() {
            return Err(MatcherError::StatementRequired);
        }
        let shadow = query_table(id);
        let qualified = qualified_table(id);
        let n = rewrite.parsed.output_columns().len();
        let ghost pks = entries(rewrite.pks);
        let mut statements: StringHashMap<MatcherStmt> = StringHashMap::new();
        assert(stmt_views(statements@) =~= Map::<Seq<char>, StmtView>::empty());
        let mut i: usize = 0;
        while i < new_queries.len()
            invariant
                i <= new_queries.len(),
                new_queries.len() == rewrite.filters.len(),
                pks == entries(rewrite.pks),
                n == rewrite.parsed@.columns.len(),
                shadow@ == query_table_spec(id),
                statements_spec(rewrite.filters@, new_queries@, pks, n as nat, shadow@, i as nat)
                    == Some(stmt_views(statements@)),
            decreases new_queries.len() - i,
        {
            let table = &rewrite.filters[i].table;
            let keys = match map_get(&rewrite.pks, table.as_str()) {
                Some(keys) => keys,
                None => {
                    proof {
                        lemma_statements_none(
                            rewrite.filters@,
                            new_queries@,
                            pks,
                            n as nat,
                            shadow@,
                            (i + 1) as nat,
                            new_queries.len() as nat,
                        );
                    }
                    return Err(MatcherError::MissingPrimaryKeys);
                },
            };
            let stmt = MatcherStmt {
                new_query: strip_semicolon(new_queries[i].clone()),
                temp_query: temp_query(&rewrite.pks, n, &shadow, keys),
            };
            let ghost before = statements@;
            statements.insert(table.clone(), stmt);
            assert(stmt_views(statements@) =~= stmt_views(before).insert(table@, stmt@));
            i = i + 1;
        }
        let (cmd_tx, cmd_rx) = command_channel(COMMAND_CAPACITY);
        let Rewrite { parsed, pks, keys, columns, filters } = rewrite;
        let inner = InnerMatcher {
            id,
            query: strip_semicolon(query),
            statements,
            pks,
            keys,
            parsed,
            query_table: shadow,
            qualified_table_name: qualified,
            change_tx,
            cmd_tx,
            col_names,
            cancel,
        };
        Ok((Matcher(Arc::new(inner)), cmd_rx))
    }

    /// The sending end of the matcher's inbox.
    pub fn cmd_tx(&self) -> (r: &mpsc::Sender<MatcherCmd>)
        ensures
            *r == self.0.cmd_tx,
    {
        &self.0.cmd_tx
    }

    /// Whether the statement refers to the table of the change.
    pub fn has_match(&self, agg: &AggregateChange) -> (r: bool)
        ensures
            r == self.statement_views().contains_key(agg.table@),
    {
        self.0.statements.contains_key(agg.table.as_str())
    }

    /// The values of the primary key of the changed row, in the order in
    /// which the table declares its primary-key columns.
    fn ordered_key(keys: &Vec<String>, agg: &AggregateChange) -> (r: Result<Vec<SqliteValue>, MatcherError>)
        ensures
            match r {
                Ok(values) => key_values(views(keys@), agg.pk@, keys@.len()) == Ok::<
                    Seq<ValueView>,
                    Seq<char>,
                >(value_views(values@)),
                Err(e) => key_values(views(keys@), agg.pk@, keys@.len()) matches Err(c) && e@
                    == ErrorView::AggPrimaryKeyMissing(agg.table@, c),
            },
    {
        let mut values: Vec<SqliteValue> = Vec::new();
        assert(value_views(values@) =~= Seq::<ValueView>::empty());
        let mut i: usize = 0;
        while i < keys.len()
            invariant
                i <= keys.len(),
                key_values(views(keys@), agg.pk@, i as nat) == Ok::<Seq<ValueView>, Seq<char>>(
                    value_views(values@),
                ),
            decreases keys.len() - i,
        {
            match find_value(&agg.pk, &keys[i]) {
                Some(v) => {
                    let copy = v.duplicate();
                    assert(value_views(values@.push(copy)) =~= value_views(values@).push(copy@));
                    values.push(copy);
                },
                None => {
                    proof {
                        lemma_key_values_error(
                            views(keys@),
                            agg.pk@,
                            (i + 1) as nat,
                            keys@.len(),
                        );
                    }
                    return Err(
                        MatcherError::AggPrimaryKeyMissing(agg.table.clone(), keys[i].clone()),
                    );
                },
            }
            i = i + 1;
        }
        Ok(values)
    }

    /// The command that a change calls for: none where the statement does
    /// not refer to the changed table; else a probe of the changed row, with
    /// the values of its primary key in declared order.
    pub fn command_for(&self, agg: &AggregateChange) -> (r: Result<Option<MatcherCmd>, MatcherError>)
        ensures
            !self.statement_views().contains_key(agg.table@) ==> r matches Ok(None),
            self.statement_views().contains_key(agg.table@) ==> match key_index(
                entries(self.0.keys),
                agg.table@,
            ) {
                None => r matches Err(e) && e@ == ErrorView::MissingPrimaryKeys,
                Some(i) => match key_values(
                    entries(self.0.keys)[i].1,
                    agg.pk@,
                    entries(self.0.keys)[i].1.len(),
                ) {
                    Err(c) => r matches Err(e) && e@ == ErrorView::AggPrimaryKeyMissing(
                        agg.table@,
                        c,
                    ),
                    Ok(values) => r matches Ok(Some(MatcherCmd::ProcessChange(stmt, given)))
                        && stmt@ == self.statement_views()[agg.table@] && value_views(given@)
                        == values,
                },
            },
    {
        let stmt = match self.0.statements.get(agg.table.as_str()) {
            Some(stmt) => stmt,
            None => {
                return Ok(None);
            },
        };
        let keys = match map_get(&self.0.keys, agg.table.as_str()) {
            Some(keys) => keys,
            None => {
                return Err(MatcherError::MissingPrimaryKeys);
            },
        };
        match Self::ordered_key(keys, agg) {
            Ok(values) => Ok(Some(MatcherCmd::ProcessChange(stmt.duplicate(), values))),
            Err(e) => Err(e),
        }
    }

    /// Hands a change to the matcher. A change of a table that the statement
    /// does not refer to is dropped; any other is put into the inbox as a
    /// probe of the changed row, unless the inbox is closed or full.
    pub fn process_change(&self, agg: &AggregateChange) -> (r: Result<(), MatcherError>)
        ensures
            !self.statement_views().contains_key(agg.table@) ==> r is Ok,
            self.statement_views().contains_key(agg.table@) ==> match key_index(
                entries(self.0.keys),
                agg.table@,
            ) {
                None => r matches Err(e) && e@ == ErrorView::MissingPrimaryKeys,
                Some(i) => match key_values(
                    entries(self.0.keys)[i].1,
                    agg.pk@,
                    entries(self.0.keys)[i].1.len(),
                ) {
                    Err(c) => r matches Err(e) && e@ == ErrorView::AggPrimaryKeyMissing(
                        agg.table@,
                        c,
                    ),
                    Ok(_) => r is Ok || (r matches Err(e) && e@
                        == ErrorView::ChangeQueueClosedOrFull),
                },
            },
    {
        match self.command_for(agg) {
            Ok(None) => Ok(()),
            Ok(Some(cmd)) => enqueue_outcome(try_enqueue(&self.0.cmd_tx, cmd)),
            Err(e) => Err(e),
        }
    }

    /// The statements that create the shadow table and its index.
    pub fn create_statement(&self) -> (s: String)
        ensures
            s@ == create_spec(
                entries(self.0.pks),
                self.0.parsed@.columns.len(),
                id_text_spec(self.0.id),
                self.0.query_table@,
                self.0.qualified_table_name@,
            ),
    {
        let n = self.0.parsed.output_columns().len();
        create_sql(&self.0.pks, n, &id_text(self.0.id), &self.0.query_table, &self.0.qualified_table_name)
    }

    /// The statement of the snapshot: it fills the shadow table with the
    /// current result and hands every row back.
    pub fn snapshot_statement(&self) -> (s: String)
        ensures
            s@ == snapshot_spec(
                entries(self.0.pks),
                self.0.parsed@.columns.len(),
                self.0.qualified_table_name@,
                self.0.query@,
            ),
    {
        let n = self.0.parsed.output_columns().len();
        snapshot_sql(&self.0.pks, n, &self.0.qualified_table_name, &self.0.query)
    }

    /// The statement that removes the shadow table.
    pub fn drop_statement(&self) -> (s: String)
        ensures
            s@ == drop_spec(self.0.qualified_table_name@),
    {
        drop_sql(&self.0.qualified_table_name)
    }

    /// The two statements of one change and the values to bind: the upsert
    /// probe, then the delete probe, each with the primary-key values bound
    /// twice, once for each of the two queries in it.
    pub fn handle_change(&self, stmt: &MatcherStmt, pks: &Vec<SqliteValue>) -> (r: ChangeProbe)
        ensures
            r.upsert@ == upsert_spec(
                entries(self.0.pks),
                self.0.parsed@.columns.len(),
                self.0.qualified_table_name@,
                stmt@.new_query,
                stmt@.temp_query,
            ),
            r.delete@ == delete_spec(
                entries(self.0.pks),
                self.0.parsed@.columns.len(),
                self.0.qualified_table_name@,
                stmt@.new_query,
                stmt@.temp_query,
            ),
            value_views(r.params@) == value_views(pks@) + value_views(pks@),
    {
        let n = self.0.parsed.output_columns().len();
        let upsert = upsert_sql(
            &self.0.pks,
            n,
            &self.0.qualified_table_name,
            stmt.new_query(),
            stmt.temp_query(),
        );
        let delete = delete_sql(
            &self.0.pks,
            n,
            &self.0.qualified_table_name,
            stmt.new_query(),
            stmt.temp_query(),
        );
        let mut params = duplicate_values(pks);
        let ghost first = params@;
        let mut second = duplicate_values(pks);
        let ghost rest = second@;
        params.append(&mut second);
        assert(value_views(params@) =~= value_views(first) + value_views(rest));
        ChangeProbe { upsert, delete, params }
    }

    /// Sends a row delta to the subscribers. Fails where none is left.
    pub fn publish(&self, row: RowResult) -> (r: Result<(), MatcherError>)
        ensures
            r is Ok || (r matches Err(e) && e@ == ErrorView::ChangeReceiverClosed),
    {
        publish_outcome(broadcast_send(&self.0.change_tx, row))
    }

    /// The number of subscribers at the moment of the call.
    pub fn receiver_count(&self) -> usize {
        broadcast_receivers(&self.0.change_tx)
    }

    /// The name of the shadow table, with its database.
    pub fn table_name(&self) -> (r: &str)
        ensures
            r@ == self.0.qualified_table_name@,
    {
        self.0.qualified_table_name.as_str()
    }

    /// A new receiver of the matcher's row deltas.
    pub fn subscribe(&self) -> broadcast::Receiver<RowResult> {
        broadcast_subscribe(&self.0.change_tx)
    }

    /// A handle on the matcher's cancellation: tripping it cancels the
    /// matcher's task.
    pub fn cancel(&self) -> (r: CancellationToken)
        ensures
            r == self.0.cancel,
    {
        clone_token(&self.0.cancel)
    }
}

/// A table without synthetic primary-key columns among the first `k` leaves
/// all without statements.
proof fn lemma_statements_none(
    filters: Seq<TableFilter>,
    rendered: Seq<String>,
    pks: Entries,
    n: nat,
    shadow: Seq<char>,
    k: nat,
    all: nat,
)
    requires
        k <= all,
        all <= filters.len(),
        all <= rendered.len(),
        statements_spec(filters, rendered, pks, n, shadow, k) is None,
    ensures
        statements_spec(filters, rendered, pks, n, shadow, all) is None,
    decreases all,
{
    if k < all {
        lemma_statements_none(filters, rendered, pks, n, shadow, k, (all - 1) as nat);
    }
}

/// The probes of table `i` of a rewritten statement.
pub open spec fn table_statement(
    tables: Entries,
    aliases: AliasPairs,
    schema: Tables,
    rendered: Seq<String>,
    n: nat,
    shadow: Seq<char>,
    i: int,
) -> StmtView {
    let t = tables[i].0;
    StmtView {
        new_query: strip_semicolon_spec(rendered[i]@),
        temp_query: temp_query_spec(
            pk_map_spec(tables, tables.len(), aliases, schema),
            n,
            shadow,
            pk_aliases_spec(shown_name(aliases, t), views(schema[t].pk@)),
        ),
    }
}

proof fn lemma_statements_cover(
    filters: Seq<TableFilter>,
    rendered: Seq<String>,
    tables: Entries,
    aliases: AliasPairs,
    schema: Tables,
    n: nat,
    shadow: Seq<char>,
    k: nat,
)
    requires
        distinct_keys(tables),
        filters_match(filters, tables, tables.len(), aliases, schema),
        rendered.len() == filters.len(),
        k <= filters.len(),
    ensures
        statements_spec(
            filters,
            rendered,
            pk_map_spec(tables, tables.len(), aliases, schema),
            n,
            shadow,
            k,
        ) matches Some(m) && (forall|t: Seq<char>|
            m.contains_key(t) <==> exists|i: int| 0 <= i < k && tables[i].0 == t) && (forall|i: int|
            0 <= i < k ==> m[tables[i].0] == table_statement(
                tables,
                aliases,
                schema,
                rendered,
                n,
                shadow,
                i,
            )),
    decreases k,
{
    let pks = pk_map_spec(tables, tables.len(), aliases, schema);
    if k > 0 {
        lemma_statements_cover(filters, rendered, tables, aliases, schema, n, shadow, (k - 1) as nat);
        lemma_pk_map_direct(tables, tables.len(), aliases, schema);
        let t = tables[k - 1].0;
        assert(filters[k - 1].table@ == t);
        assert(pks[k - 1].0 == t);
        assert forall|j: int| 0 <= j < k - 1 implies pks[j].0 != t by {
            assert(tables[j].0 != tables[k - 1].0);
        }
        lemma_key_index_is(pks, t, k - 1);
        let before = statements_spec(filters, rendered, pks, n, shadow, (k - 1) as nat)->0;
        let after = statements_spec(filters, rendered, pks, n, shadow, k)->0;
        assert(after == before.insert(t, table_statement(tables, aliases, schema, rendered, n, shadow, k - 1)));
        assert forall|i: int| 0 <= i < k implies after[tables[i].0] == table_statement(
            tables,
            aliases,
            schema,
            rendered,
            n,
            shadow,
            i,
        ) by {
            if i < k - 1 {
                assert(tables[i].0 != tables[k - 1].0);
            }
        }
        assert forall|u: Seq<char>| after.contains_key(u) <==> exists|i: int|
            0 <= i < k && tables[i].0 == u by {
            if after.contains_key(u) {
                if u == t {
                    assert(tables[k - 1].0 == u);
                } else {
                    assert(before.contains_key(u));
                    let i = choose|i: int| 0 <= i < k - 1 && tables[i].0 == u;
                    assert(0 <= i < k && tables[i].0 == u);
                }
            }
            if exists|i: int| 0 <= i < k && tables[i].0 == u {
                let i = choose|i: int| 0 <= i < k && tables[i].0 == u;
                if i < k - 1 {
                    assert(before.contains_key(u));
                }
            }
        }
    }
}

/// One entry per referenced table. Of a rewritten statement whose
/// referenced tables are distinct, with one rendered query per table: the
/// statements of its matcher are there, they hold exactly the referenced
/// tables, and those of each table are the rendered query of that table
/// without its final semicolon and the probe of the shadow table over that
/// table's own synthetic primary-key columns.
pub proof fn law_statements_cover_tables(
    filters: Seq<TableFilter>,
    rendered: Seq<String>,
    tables: Entries,
    aliases: AliasPairs,
    schema: Tables,
    n: nat,
    shadow: Seq<char>,
)
    requires
        distinct_keys(tables),
        filters_match(filters, tables, tables.len(), aliases, schema),
        rendered.len() == filters.len(),
    ensures
        statements_spec(
            filters,
            rendered,
            pk_map_spec(tables, tables.len(), aliases, schema),
            n,
            shadow,
            filters.len(),
        ) matches Some(m) && (forall|t: Seq<char>| m.contains_key(t) <==> keys(tables).contains(t))
            && (forall|i: int|
            0 <= i < tables.len() ==> m[tables[i].0] == table_statement(
                tables,
                aliases,
                schema,
                rendered,
                n,
                shadow,
                i,
            )),
{
    lemma_statements_cover(filters, rendered, tables, aliases, schema, n, shadow, filters.len());
    let m = statements_spec(
        filters,
        rendered,
        pk_map_spec(tables, tables.len(), aliases, schema),
        n,
        shadow,
        filters.len(),
    )->0;
    assert forall|t: Seq<char>| m.contains_key(t) <==> keys(tables).contains(t) by {
        if m.contains_key(t) {
            let i = choose|i: int| 0 <= i < tables.len() && tables[i].0 == t;
            assert(keys(tables)[i] == t);
        }
        if keys(tables).contains(t) {
            let i = choose|i: int| 0 <= i < keys(tables).len() && keys(tables)[i] == t;
            assert(tables[i].0 == t);
        }
    }
}

} // verus!
