//! The rewriter: the synthetic primary-key columns of a watched statement,
//! the filter that binds it to one row of a table, and the probe that reads
//! the same row from the shadow table.

use vstd::prelude::*;
use crate::aliases::{AliasPairs, Aliases, shown_name};
use crate::analysis::{
    Analysis, ColumnView, SourceView, Tables, law_analysis_well_formed, numbered,
    select_analysis, well_formed,
};
use crate::sql::{flatten_spec, shadow_columns_spec};
use crate::text::col_names_spec;
use crate::analyze::{
    ColumnSource, OutputColumn, ParsedSelect, column_views, extract_select_columns,
};
use crate::ast::{Cmd, Expr, Operator, Stmt};
use crate::error::{ErrorView, MatcherError};
use crate::ordered::{
    Entries, NameMap, distinct_keys, entries, lemma_key_index_none, map_insert, map_new, put,
};
use crate::schema::{NormalizedSchema, NormalizedTable};
use crate::text::{clone_names, views};

verus! {

/// The name of the shadow column that keeps primary-key column `pk` of the
/// table shown as `shown`: `__corro_pk_{shown}_{pk}`.
pub open spec fn pk_alias_spec(shown: Seq<char>, pk: Seq<char>) -> Seq<char> {
    "__corro_pk_"@ + shown + "_"@ + pk
}

/// The shadow columns of all primary-key columns `pks` of one table.
pub open spec fn pk_aliases_spec(shown: Seq<char>, pks: Seq<Seq<char>>) -> Seq<Seq<char>> {
    Seq::new(pks.len(), |i: int| pk_alias_spec(shown, pks[i]))
}

/// `e` is `table.pk IS ?`.
pub open spec fn is_pk_term(e: Expr, table: Seq<char>, pk: Seq<char>) -> bool {
    &&& e matches Expr::Binary(l, op, r)
    &&& op == Operator::Is
    &&& *l matches Expr::Qualified(t, c)
    &&& t@ == table
    &&& c@ == pk
    &&& *r matches Expr::Id(q)
    &&& q@ == "?"@
}

/// `e` is the conjunction of `table.pk IS ?` over the first `n` of `pks`,
/// nested to the left.
pub open spec fn is_pk_filter(e: Expr, table: Seq<char>, pks: Seq<Seq<char>>, n: nat) -> bool
    decreases n,
{
    if n == 0 || n > pks.len() {
        false
    } else if n == 1 {
        is_pk_term(e, table, pks[0])
    } else {
        &&& e matches Expr::Binary(l, op, r)
        &&& op == Operator::And
        &&& is_pk_filter(*l, table, pks, (n - 1) as nat)
        &&& is_pk_term(*r, table, pks[n - 1])
    }
}

/// The name of a synthetic primary-key column.
pub fn pk_alias(shown: &String, pk: &String) -> (s: String)
    ensures
        s@ == pk_alias_spec(shown@, pk@),
{
    let mut s = "__corro_pk_".to_owned();
    s.append(shown.as_str());
    s.append("_");
    s.append(pk.as_str());
    s
}

/// The names of the synthetic primary-key columns of one table.
pub fn pk_aliases(shown: &String, pks: &Vec<String>) -> (v: Vec<String>)
    ensures
        views(v@) == pk_aliases_spec(shown@, views(pks@)),
{
    let mut v: Vec<String> = Vec::new();
    let mut i: usize = 0;
    while i < pks.len()
        invariant
            i <= pks.len(),
            v@.len() == i,
            forall|k: int| 0 <= k < i ==> (#[trigger] v@[k])@ == pk_alias_spec(shown@, pks@[k]@),
        decreases pks.len() - i,
    {
        v.push(pk_alias(shown, &pks[i]));
        i = i + 1;
    }
    assert(views(v@) =~= pk_aliases_spec(shown@, views(pks@)));
    v
}

/// The term `table.pk IS ?`.
pub fn expr_from_pk(table: &String, pk: &String) -> (r: Option<Expr>)
    ensures
        r matches Some(e) && is_pk_term(e, table@, pk@),
{
    Some(
        Expr::Binary(
            Box::new(Expr::Qualified(table.clone(), pk.clone())),
            Operator::Is,
            Box::new(Expr::Id("?".to_owned())),
        ),
    )
}

/// The filter that binds a statement to one row of `table`: `pk IS ?` for
/// each primary-key column of the table, under the name by which the table
/// goes in the statement. A table without primary key is refused.
pub fn table_to_expr(aliases: &Aliases, tbl: &NormalizedTable, table: &String) -> (r: Result<
    Expr,
    MatcherError,
>)
    ensures
        match r {
            Ok(e) => tbl.pk.len() > 0 && is_pk_filter(
                e,
                shown_name(aliases@, table@),
                views(tbl.pk@),
                tbl.pk.len() as nat,
            ),
            Err(err) => tbl.pk.len() == 0 && err@ == ErrorView::NoPrimaryKey(
                shown_name(aliases@, table@),
            ),
        },
{
    let tbl_name = aliases.shown_name(table);
    if tbl.pk.len() == 0 {
        return Err(MatcherError::NoPrimaryKey(tbl_name));
    }
    let mut expr = match expr_from_pk(&tbl_name, &tbl.pk[0]) {
        Some(e) => e,
        None => {
            return Err(MatcherError::AggPrimaryKeyMissing(tbl_name, tbl.pk[0].clone()));
        },
    };
    let mut i: usize = 1;
    while i < tbl.pk.len()
        invariant
            1 <= i <= tbl.pk.len(),
            tbl_name@ == shown_name(aliases@, table@),
            is_pk_filter(expr, tbl_name@, views(tbl.pk@), i as nat),
        decreases tbl.pk.len() - i,
    {
        let term = match expr_from_pk(&tbl_name, &tbl.pk[i]) {
            Some(e) => e,
            None => {
                return Err(MatcherError::AggPrimaryKeyMissing(tbl_name, tbl.pk[0].clone()));
            },
        };
        expr = Expr::Binary(Box::new(expr), Operator::And, Box::new(term));
        i = i + 1;
    }
    Ok(expr)
}

/// The projection items that carry the primary key `pks` of the table shown
/// as `shown` into the shadow table: `shown.pk AS __corro_pk_{shown}_{pk}`.
pub open spec fn table_pk_columns(shown: Seq<char>, pks: Seq<Seq<char>>) -> Seq<ColumnView> {
    Seq::new(
        pks.len(),
        |i: int|
            ColumnView {
                source: SourceView::Qualified(shown, pks[i]),
                alias: pk_alias_spec(shown, pks[i]),
            },
    )
}

/// The primary-key items of the first `n` referenced tables, table by table.
pub open spec fn pk_columns_spec(tables: Entries, n: nat, aliases: AliasPairs, schema: Tables) -> Seq<
    ColumnView,
>
    decreases n,
{
    if n == 0 || n > tables.len() {
        Seq::empty()
    } else {
        let t = tables[n - 1].0;
        pk_columns_spec(tables, (n - 1) as nat, aliases, schema) + table_pk_columns(
            shown_name(aliases, t),
            views(schema[t].pk@),
        )
    }
}

/// The synthetic primary-key columns of the first `n` referenced tables, by
/// table.
pub open spec fn pk_map_spec(tables: Entries, n: nat, aliases: AliasPairs, schema: Tables) -> Entries
    decreases n,
{
    if n == 0 || n > tables.len() {
        Seq::empty()
    } else {
        let t = tables[n - 1].0;
        put(
            pk_map_spec(tables, (n - 1) as nat, aliases, schema),
            t,
            pk_aliases_spec(shown_name(aliases, t), views(schema[t].pk@)),
        )
    }
}

/// The declared primary-key columns of the first `n` referenced tables, by
/// table.
pub open spec fn key_map_spec(tables: Entries, n: nat, schema: Tables) -> Entries
    decreases n,
{
    if n == 0 || n > tables.len() {
        Seq::empty()
    } else {
        let t = tables[n - 1].0;
        put(key_map_spec(tables, (n - 1) as nat, schema), t, views(schema[t].pk@))
    }
}

/// Why table `t` cannot be watched, if it cannot: it is not in the schema, or
/// it has no primary key.
pub open spec fn table_failure(t: Seq<char>, aliases: AliasPairs, schema: Tables) -> Option<ErrorView> {
    if !schema.contains_key(t) {
        Some(ErrorView::TableNotFound(t))
    } else if schema[t].pk.len() == 0 {
        Some(ErrorView::NoPrimaryKey(shown_name(aliases, t)))
    } else {
        None
    }
}

/// The failure of the first of the first `n` referenced tables that cannot
/// be watched.
pub open spec fn plan_failure(tables: Entries, n: nat, aliases: AliasPairs, schema: Tables) -> Option<
    ErrorView,
>
    decreases n,
{
    if n == 0 || n > tables.len() {
        None
    } else {
        match plan_failure(tables, (n - 1) as nat, aliases, schema) {
            Some(e) => Some(e),
            None => table_failure(tables[n - 1].0, aliases, schema),
        }
    }
}

/// What the rewriting of a command comes to: the analysis of its `SELECT`,
/// or the reason why it is refused. One statement is required, and it must
/// be a `SELECT` that refers to at least one table, all of them in the schema
/// and with a primary key.
pub open spec fn rewrite_outcome(cmd: Option<Cmd>, schema: Tables) -> Result<Analysis, ErrorView> {
    match cmd {
        Some(Cmd::Stmt(Stmt::Select(select))) => match select_analysis(select, schema) {
            Err(e) => Err(e),
            Ok(a) => if a.tables.len() == 0 {
                Err(ErrorView::TableRequired)
            } else {
                match plan_failure(a.tables, a.tables.len(), a.aliases, schema) {
                    Some(e) => Err(e),
                    None => Ok(a),
                }
            },
        },
        Some(Cmd::Stmt(Stmt::Other)) => Err(ErrorView::UnsupportedStatement),
        _ => Err(ErrorView::StatementRequired),
    }
}

/// The filter of one referenced table.
#[derive(Debug)]
pub struct TableFilter {
    pub table: String,
    pub filter: Expr,
}

/// A rewritten statement: the analysis, the synthetic primary-key columns
/// and the declared primary-key columns by table, the projection that the
/// statement gets, and per referenced table the filter that is put before
/// its `WHERE` clause with `AND`.
pub struct Rewrite {
    pub parsed: ParsedSelect,
    pub pks: NameMap,
    pub keys: NameMap,
    pub columns: Vec<OutputColumn>,
    pub filters: Vec<TableFilter>,
}

/// `filters` holds, for each referenced table in order, the filter over the
/// table's primary key.
pub open spec fn filters_match(
    filters: Seq<TableFilter>,
    tables: Entries,
    n: nat,
    aliases: AliasPairs,
    schema: Tables,
) -> bool {
    &&& filters.len() == n
    &&& forall|i: int|
        0 <= i < n ==> (#[trigger] filters[i]).table@ == tables[i].0 && is_pk_filter(
            filters[i].filter,
            shown_name(aliases, tables[i].0),
            views(schema[tables[i].0].pk@),
            schema[tables[i].0].pk.len() as nat,
        )
}

/// `w` is the rewriting of the statement with analysis `a`.
pub open spec fn is_rewrite(w: Rewrite, a: Analysis, schema: Tables) -> bool {
    &&& w.parsed@ == a
    &&& well_formed(a)
    &&& entries(w.pks) == pk_map_spec(a.tables, a.tables.len(), a.aliases, schema)
    &&& entries(w.keys) == key_map_spec(a.tables, a.tables.len(), schema)
    &&& column_views(w.columns@) == pk_columns_spec(a.tables, a.tables.len(), a.aliases, schema)
        + a.columns
    &&& filters_match(w.filters@, a.tables, a.tables.len(), a.aliases, schema)
}

/// A failure among the first `k` tables is the failure of all.
proof fn lemma_plan_failure(tables: Entries, k: nat, n: nat, aliases: AliasPairs, schema: Tables)
    requires
        k <= n <= tables.len(),
        plan_failure(tables, k, aliases, schema) is Some,
    ensures
        plan_failure(tables, n, aliases, schema) == plan_failure(tables, k, aliases, schema),
    decreases n,
{
    if k < n {
        lemma_plan_failure(tables, k, (n - 1) as nat, aliases, schema);
    }
}

impl OutputColumn {
    /// A copy of the column.
    pub fn duplicate(&self) -> (r: OutputColumn)
        ensures
            r@ == self@,
    {
        let source = match &self.source {
            ColumnSource::Projected(k) => ColumnSource::Projected(*k),
            ColumnSource::Name(c) => ColumnSource::Name(c.clone()),
            ColumnSource::Qualified(t, c) => ColumnSource::Qualified(t.clone(), c.clone()),
        };
        OutputColumn { source, alias: self.alias.clone() }
    }
}

/// Adds the primary-key items of one table to `columns`.
fn push_pk_columns(columns: &mut Vec<OutputColumn>, shown: &String, pks: &Vec<String>)
    ensures
        column_views(final(columns)@) == column_views(old(columns)@) + table_pk_columns(
            shown@,
            views(pks@),
        ),
{
    let ghost before = column_views(columns@);
    let mut k: usize = 0;
    while k < pks.len()
        invariant
            k <= pks.len(),
            column_views(columns@) == before + table_pk_columns(shown@, views(pks@)).take(k as int),
        decreases pks.len() - k,
    {
        let item = OutputColumn {
            source: ColumnSource::Qualified(shown.clone(), pks[k].clone()),
            alias: pk_alias(shown, &pks[k]),
        };
        proof {
            assert(column_views(columns@.push(item)) =~= column_views(columns@).push(item@));
            assert(table_pk_columns(shown@, views(pks@)).take(k + 1) =~= table_pk_columns(
                shown@,
                views(pks@),
            ).take(k as int).push(item@));
            assert((before + table_pk_columns(shown@, views(pks@)).take(k as int)).push(item@)
                =~= before + table_pk_columns(shown@, views(pks@)).take(k + 1));
        }
        columns.push(item);
        k = k + 1;
    }
    assert(table_pk_columns(shown@, views(pks@)).take(pks.len() as int) =~= table_pk_columns(
        shown@,
        views(pks@),
    ));
}

/// Adds copies of `more` to `columns`.
fn push_columns(columns: &mut Vec<OutputColumn>, more: &Vec<OutputColumn>)
    ensures
        column_views(final(columns)@) == column_views(old(columns)@) + column_views(more@),
{
    let ghost before = column_views(columns@);
    let mut k: usize = 0;
    while k < more.len()
        invariant
            k <= more.len(),
            column_views(columns@) == before + column_views(more@).take(k as int),
        decreases more.len() - k,
    {
        let item = more[k].duplicate();
        proof {
            assert(column_views(columns@.push(item)) =~= column_views(columns@).push(item@));
            assert(column_views(more@).take(k + 1) =~= column_views(more@).take(k as int).push(
                item@,
            ));
            assert((before + column_views(more@).take(k as int)).push(item@) =~= before
                + column_views(more@).take(k + 1));
        }
        columns.push(item);
        k = k + 1;
    }
    assert(column_views(more@).take(more.len() as int) =~= column_views(more@));
}

/// Rewrites a parsed command for watching: analyses its `SELECT`, gives the
/// projection the synthetic primary-key columns of every referenced table,
/// and builds the filter of each table.
pub fn rewrite(cmd: &Option<Cmd>, schema: &NormalizedSchema) -> (r: Result<Rewrite, MatcherError>)
    ensures
        match r {
            Ok(w) => rewrite_outcome(*cmd, schema.tables()) is Ok && is_rewrite(
                w,
                rewrite_outcome(*cmd, schema.tables())->Ok_0,
                schema.tables(),
            ),
            Err(e) => rewrite_outcome(*cmd, schema.tables()) == Err::<Analysis, ErrorView>(e@),
        },
{
    let select = match cmd {
        Some(Cmd::Stmt(Stmt::Select(select))) => select,
        Some(Cmd::Stmt(Stmt::Other)) => {
            return Err(MatcherError::UnsupportedStatement);
        },
        _ => {
            return Err(MatcherError::StatementRequired);
        },
    };
    let parsed = match extract_select_columns(select, schema) {
        Ok(p) => p,
        Err(e) => {
            return Err(e);
        },
    };
    let n = parsed.table_count();
    if n == 0 {
        return Err(MatcherError::TableRequired);
    }
    let ghost a = parsed@;
    let ghost tables = schema.tables();
    proof {
        law_analysis_well_formed(*select, tables);
    }
    let mut pks = map_new();
    let mut keys = map_new();
    let mut columns: Vec<OutputColumn> = Vec::new();
    let mut filters: Vec<TableFilter> = Vec::new();
    assert(column_views(columns@) =~= pk_columns_spec(a.tables, 0, a.aliases, tables));
    let mut i: usize = 0;
    while i < n
        invariant
            i <= n,
            n == a.tables.len(),
            a == parsed@,
            tables == schema.tables(),
            rewrite_outcome(*cmd, tables) == match plan_failure(
                a.tables,
                a.tables.len(),
                a.aliases,
                tables,
            ) {
                Some(e) => Err::<Analysis, ErrorView>(e),
                None => Ok::<Analysis, ErrorView>(a),
            },
            plan_failure(a.tables, i as nat, a.aliases, tables) is None,
            entries(pks) == pk_map_spec(a.tables, i as nat, a.aliases, tables),
            entries(keys) == key_map_spec(a.tables, i as nat, tables),
            column_views(columns@) == pk_columns_spec(a.tables, i as nat, a.aliases, tables),
            filters_match(filters@, a.tables, i as nat, a.aliases, tables),
        decreases n - i,
    {
        let t = parsed.table_at(i).unwrap().0;
        let table = match schema.get(t.as_str()) {
            Some(table) => table,
            None => {
                proof {
                    lemma_plan_failure(a.tables, (i + 1) as nat, n as nat, a.aliases, tables);
                }
                return Err(MatcherError::TableNotFound(t.clone()));
            },
        };
        let filter = match table_to_expr(parsed.aliases(), table, t) {
            Ok(e) => e,
            Err(e) => {
                proof {
                    lemma_plan_failure(a.tables, (i + 1) as nat, n as nat, a.aliases, tables);
                }
                return Err(e);
            },
        };
        let shown = parsed.aliases().shown_name(t);
        push_pk_columns(&mut columns, &shown, &table.pk);
        map_insert(&mut pks, t.clone(), pk_aliases(&shown, &table.pk));
        map_insert(&mut keys, t.clone(), clone_names(&table.pk));
        let ghost before = filters@;
        filters.push(TableFilter { table: t.clone(), filter });
        assert forall|k: int| 0 <= k < i + 1 implies (#[trigger] filters@[k]).table@
            == a.tables[k].0 && is_pk_filter(
            filters@[k].filter,
            shown_name(a.aliases, a.tables[k].0),
            views(tables[a.tables[k].0].pk@),
            tables[a.tables[k].0].pk.len() as nat,
        ) by {
            if k < i {
                assert(filters@[k] == before[k]);
            }
        }
        i = i + 1;
    }
    push_columns(&mut columns, parsed.output_columns());
    Ok(Rewrite { parsed, pks, keys, columns, filters })
}

/// The synthetic primary-key columns of the first `n` tables, table by
/// table, written out.
pub open spec fn pk_map_direct(tables: Entries, n: nat, aliases: AliasPairs, schema: Tables) -> Entries {
    Seq::new(
        n,
        |i: int|
            (
                tables[i].0,
                pk_aliases_spec(shown_name(aliases, tables[i].0), views(schema[tables[i].0].pk@)),
            ),
    )
}

/// Where no table stands twice, the map of synthetic primary-key columns
/// has one pair per table, in the order of the tables.
pub proof fn lemma_pk_map_direct(tables: Entries, n: nat, aliases: AliasPairs, schema: Tables)
    requires
        distinct_keys(tables),
        n <= tables.len(),
    ensures
        pk_map_spec(tables, n, aliases, schema) == pk_map_direct(tables, n, aliases, schema),
    decreases n,
{
    if n == 0 {
        assert(pk_map_spec(tables, n, aliases, schema) =~= pk_map_direct(tables, n, aliases, schema));
    } else {
        lemma_pk_map_direct(tables, (n - 1) as nat, aliases, schema);
        let before = pk_map_direct(tables, (n - 1) as nat, aliases, schema);
        let t = tables[n - 1].0;
        assert forall|j: int| 0 <= j < before.len() implies before[j].0 != t by {
            assert(tables[j].0 != tables[n - 1].0);
        }
        lemma_key_index_none(before, t);
        assert(pk_map_spec(tables, n, aliases, schema) =~= pk_map_direct(tables, n, aliases, schema));
    }
}

/// The aliases of a list of output columns.
pub open spec fn aliases_of(columns: Seq<ColumnView>) -> Seq<Seq<char>> {
    Seq::new(columns.len(), |i: int| columns[i].alias)
}

proof fn lemma_pk_columns_aliases(tables: Entries, n: nat, aliases: AliasPairs, schema: Tables)
    requires
        n <= tables.len(),
    ensures
        aliases_of(pk_columns_spec(tables, n, aliases, schema)) == flatten_spec(
            pk_map_direct(tables, tables.len(), aliases, schema),
            n,
        ),
    decreases n,
{
    let direct = pk_map_direct(tables, tables.len(), aliases, schema);
    if n == 0 {
        assert(aliases_of(pk_columns_spec(tables, n, aliases, schema)) =~= flatten_spec(direct, n));
    } else {
        lemma_pk_columns_aliases(tables, (n - 1) as nat, aliases, schema);
        let t = tables[n - 1].0;
        let shown = shown_name(aliases, t);
        let pks = views(schema[t].pk@);
        assert(aliases_of(table_pk_columns(shown, pks)) =~= pk_aliases_spec(shown, pks));
        assert(direct[n - 1].1 == pk_aliases_spec(shown, pks));
        assert(aliases_of(pk_columns_spec(tables, n, aliases, schema)) =~= aliases_of(
            pk_columns_spec(tables, (n - 1) as nat, aliases, schema),
        ) + aliases_of(table_pk_columns(shown, pks)));
    }
}

/// The projection fills the shadow table. Of a statement whose referenced
/// tables are distinct and whose output columns are numbered from zero, the
/// aliases of the rewritten projection are, in order, the data columns of
/// the shadow table: the synthetic primary-key columns of every referenced
/// table, then `col_0` to `col_{n-1}`.
pub proof fn law_projection_fills_shadow(a: Analysis, schema: Tables)
    requires
        distinct_keys(a.tables),
        numbered(a.columns),
    ensures
        aliases_of(pk_columns_spec(a.tables, a.tables.len(), a.aliases, schema) + a.columns)
            == shadow_columns_spec(
            pk_map_spec(a.tables, a.tables.len(), a.aliases, schema),
            a.columns.len(),
        ),
{
    let n = a.tables.len();
    lemma_pk_map_direct(a.tables, n, a.aliases, schema);
    lemma_pk_columns_aliases(a.tables, n, a.aliases, schema);
    let front = pk_columns_spec(a.tables, n, a.aliases, schema);
    assert(aliases_of(a.columns) =~= col_names_spec(a.columns.len()));
    assert(aliases_of(front + a.columns) =~= aliases_of(front) + aliases_of(a.columns));
}

} // verus!
