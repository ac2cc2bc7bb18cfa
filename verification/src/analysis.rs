//! What the analysis of a `SELECT` yields, stated over views: the referenced
//! tables with their columns in order of first mention, the aliases, the
//! rewritten projection, and the analyses of the subqueries.
//!
//! The functions here are the definition; `crate::analyze` computes them.

use vstd::prelude::*;
use crate::aliases::{AliasPairs, resolve};
use crate::ast::{
    As, Expr, FromClause, JoinConstraint, JoinedSelectTable, QualifiedName, ResultColumn,
    Select, SelectTable, WhenThen,
};
use crate::error::{ErrorView, UnsupportedView};
use crate::ordered::{Entries, distinct_keys, key_index, lemma_key_index, lemma_put_distinct, put};
use crate::schema::NormalizedTable;
use crate::text::{col_name_spec, views};

verus! {

/// Where an output column takes its value from.
pub ghost enum SourceView {
    /// The expression at this position of the statement's own projection.
    Projected(nat),
    /// A column named without its table.
    Name(Seq<char>),
    /// `table.column`, the table as written in the statement.
    Qualified(Seq<char>, Seq<char>),
}

/// One output column: its source and its alias `col_i`.
pub ghost struct ColumnView {
    pub source: SourceView,
    pub alias: Seq<char>,
}

/// The analysis of one `SELECT`.
pub ghost struct Analysis {
    pub tables: Entries,
    pub aliases: AliasPairs,
    pub columns: Seq<ColumnView>,
    pub children: Seq<Analysis>,
}

/// The schema as the analysis reads it.
pub type Tables = Map<Seq<char>, NormalizedTable>;

/// The analysis before anything has been read.
pub open spec fn empty_analysis() -> Analysis {
    Analysis { tables: Seq::empty(), aliases: Seq::empty(), columns: Seq::empty(), children: Seq::empty() }
}

/// `t` with `table` mentioned: a table that is new goes last, without columns.
pub open spec fn note_table(t: Entries, table: Seq<char>) -> Entries {
    match key_index(t, table) {
        Some(_) => t,
        None => t.push((table, Seq::empty())),
    }
}

/// `t` with `column` of `table` mentioned: the table as by `note_table`, the
/// column behind the table's other columns unless it is among them.
pub open spec fn note_column(t: Entries, table: Seq<char>, column: Seq<char>) -> Entries {
    match key_index(t, table) {
        Some(i) => if t[i].1.contains(column) {
            t
        } else {
            t.update(i, (table, t[i].1.push(column)))
        },
        None => t.push((table, seq![column])),
    }
}

/// `t` with the first `n` of `columns` mentioned for `table`, in order.
pub open spec fn note_columns(t: Entries, table: Seq<char>, columns: Seq<Seq<char>>, n: nat) -> Entries
    decreases n,
{
    if n == 0 || n > columns.len() {
        t
    } else {
        note_column(note_columns(t, table, columns, (n - 1) as nat), table, columns[n - 1])
    }
}

/// The alias under which a table of `FROM` or `JOIN` goes, if it has one:
/// the one given behind the table first, else the one the name carries.
pub open spec fn table_alias(name: QualifiedName, alias: Option<As>) -> Option<Seq<char>> {
    match alias {
        Some(As::As(a)) => Some(a@),
        Some(As::Elided(a)) => Some(a@),
        None => match name.alias {
            Some(a) => Some(a@),
            None => None,
        },
    }
}

/// The analysis with a table of `FROM` or `JOIN` registered: its alias, if
/// any, and the table itself.
pub open spec fn register_table(a: Analysis, name: QualifiedName, alias: Option<As>) -> Analysis {
    let aliases = match table_alias(name, alias) {
        Some(al) => put(a.aliases, al, name.name@),
        None => a.aliases,
    };
    Analysis { tables: note_table(a.tables, name.name@), aliases, ..a }
}

/// The analysis with a reference to `column` of the table or alias `name`.
pub open spec fn with_reference(a: Analysis, name: Seq<char>, column: Seq<char>) -> Analysis {
    Analysis { tables: note_column(a.tables, resolve(a.aliases, name), column), ..a }
}

/// The analysis after expression `e` has been read.
pub open spec fn expr_step(e: Expr, schema: Tables, a: Analysis) -> Result<Analysis, ErrorView>
    decreases e, 0nat,
{
    match e {
        Expr::Qualified(table, column) => Ok(with_reference(a, table@, column@)),
        Expr::DoublyQualified(db, table, column) => if db@ == "main"@ {
            Ok(with_reference(a, table@, column@))
        } else {
            Ok(a)
        },
        Expr::Name(name) => Err(ErrorView::UnsupportedExpr { expr: UnsupportedView::Name(name@) }),
        Expr::InTable { lhs, table, args } => Err(
            ErrorView::UnsupportedExpr { expr: UnsupportedView::InTable(table@) },
        ),
        Expr::Between { lhs, start, end } => match expr_step(*lhs, schema, a) {
            Err(x) => Err(x),
            Ok(a1) => match expr_step(*start, schema, a1) {
                Err(x) => Err(x),
                Ok(a2) => expr_step(*end, schema, a2),
            },
        },
        Expr::Binary(lhs, _, rhs) => match expr_step(*lhs, schema, a) {
            Err(x) => Err(x),
            Ok(a1) => expr_step(*rhs, schema, a1),
        },
        Expr::Case { base, when_then_pairs, else_expr } => match opt_expr_step(base, schema, a) {
            Err(x) => Err(x),
            Ok(a1) => match whens_step(when_then_pairs, when_then_pairs.len() as nat, schema, a1) {
                Err(x) => Err(x),
                Ok(a2) => opt_expr_step(else_expr, schema, a2),
            },
        },
        Expr::Cast(inner) => expr_step(*inner, schema, a),
        Expr::Collate(inner) => expr_step(*inner, schema, a),
        Expr::Exists(select) => with_child(*select, schema, a),
        Expr::FunctionCall { name, args, filter } => match exprs_step(
            args,
            args.len() as nat,
            schema,
            a,
        ) {
            Err(x) => Err(x),
            Ok(a1) => opt_expr_step(filter, schema, a1),
        },
        Expr::Id(_) => Ok(a),
        Expr::InList { lhs, rhs } => match expr_step(*lhs, schema, a) {
            Err(x) => Err(x),
            Ok(a1) => exprs_step(rhs, rhs.len() as nat, schema, a1),
        },
        Expr::InSelect { lhs, rhs } => match expr_step(*lhs, schema, a) {
            Err(x) => Err(x),
            Ok(a1) => with_child(*rhs, schema, a1),
        },
        Expr::IsNull(inner) => expr_step(*inner, schema, a),
        Expr::Like { lhs, rhs, escape } => match expr_step(*lhs, schema, a) {
            Err(x) => Err(x),
            Ok(a1) => match expr_step(*rhs, schema, a1) {
                Err(x) => Err(x),
                Ok(a2) => opt_expr_step(escape, schema, a2),
            },
        },
        Expr::NotNull(inner) => expr_step(*inner, schema, a),
        Expr::Parenthesized(inner) => exprs_step(inner, inner.len() as nat, schema, a),
        Expr::Subquery(select) => with_child(*select, schema, a),
        Expr::Unary(inner) => expr_step(*inner, schema, a),
        Expr::Constant => Ok(a),
    }
}

/// The analysis after an expression that may be missing.
pub open spec fn opt_expr_step(e: Option<Box<Expr>>, schema: Tables, a: Analysis) -> Result<
    Analysis,
    ErrorView,
>
    decreases e, 0nat,
{
    match e {
        Some(inner) => expr_step(*inner, schema, a),
        None => Ok(a),
    }
}

/// The analysis after the first `n` expressions of `es`, read in order.
pub open spec fn exprs_step(es: Vec<Expr>, n: nat, schema: Tables, a: Analysis) -> Result<
    Analysis,
    ErrorView,
>
    decreases es, n,
{
    if n == 0 || n > es.len() {
        Ok(a)
    } else {
        match exprs_step(es, (n - 1) as nat, schema, a) {
            Err(x) => Err(x),
            Ok(a1) => expr_step(es[n - 1], schema, a1),
        }
    }
}

/// The analysis after the first `n` arms of a `CASE`: of each arm first the
/// condition, then the result.
pub open spec fn whens_step(ws: Vec<WhenThen>, n: nat, schema: Tables, a: Analysis) -> Result<
    Analysis,
    ErrorView,
>
    decreases ws, n,
{
    if n == 0 || n > ws.len() {
        Ok(a)
    } else {
        match whens_step(ws, (n - 1) as nat, schema, a) {
            Err(x) => Err(x),
            Ok(a1) => match expr_step(ws[n - 1].when_expr, schema, a1) {
                Err(x) => Err(x),
                Ok(a2) => expr_step(ws[n - 1].then_expr, schema, a2),
            },
        }
    }
}

/// The analysis with that of a subquery added to its children. The subquery
/// is analysed on its own.
pub open spec fn with_child(select: Select, schema: Tables, a: Analysis) -> Result<Analysis, ErrorView>
    decreases select, 1nat,
{
    match select_analysis(select, schema) {
        Err(x) => Err(x),
        Ok(child) => Ok(Analysis { children: a.children.push(child), ..a }),
    }
}

/// The analysis after a table of `FROM` or `JOIN`: a table must be in the
/// schema; anything but a table is passed over.
pub open spec fn table_step(t: SelectTable, schema: Tables, a: Analysis) -> Result<Analysis, ErrorView> {
    match t {
        SelectTable::Table(name, alias) => if schema.contains_key(name.name@) {
            Ok(register_table(a, name, alias))
        } else {
            Err(ErrorView::TableNotFound(name.name@))
        },
        SelectTable::Other => Ok(a),
    }
}

/// The analysis after one join: its table, then its constraint. The
/// constraint of a join on anything but a table is passed over.
pub open spec fn join_step(j: JoinedSelectTable, schema: Tables, a: Analysis) -> Result<Analysis, ErrorView>
    decreases j, 0nat,
{
    match j.table {
        SelectTable::Table(name, alias) => match table_step(j.table, schema, a) {
            Err(x) => Err(x),
            Ok(a1) => match j.constraint {
                Some(JoinConstraint::On(e)) => expr_step(e, schema, a1),
                Some(JoinConstraint::Using(names)) => Ok(
                    Analysis {
                        tables: note_columns(a1.tables, name.name@, views(names@), names.len() as nat),
                        ..a1
                    },
                ),
                None => Ok(a1),
            },
        },
        SelectTable::Other => Ok(a),
    }
}

/// The analysis after the first `n` joins.
pub open spec fn joins_step(js: Vec<JoinedSelectTable>, n: nat, schema: Tables, a: Analysis) -> Result<
    Analysis,
    ErrorView,
>
    decreases js, n,
{
    if n == 0 || n > js.len() {
        Ok(a)
    } else {
        match joins_step(js, (n - 1) as nat, schema, a) {
            Err(x) => Err(x),
            Ok(a1) => join_step(js[n - 1], schema, a1),
        }
    }
}

/// The table that `*` expands: the first of `FROM`, where that is a table.
pub open spec fn star_table(from: Option<FromClause>) -> Option<Seq<char>> {
    match from {
        Some(f) => match f.select {
            SelectTable::Table(name, _) => Some(name.name@),
            SelectTable::Other => None,
        },
        None => None,
    }
}

/// The source of a column that a star expands to: the bare column for `*`,
/// the column behind the table as written for `table.*`.
pub open spec fn star_source(qualifier: Option<Seq<char>>, column: Seq<char>) -> SourceView {
    match qualifier {
        Some(written) => SourceView::Qualified(written, column),
        None => SourceView::Name(column),
    }
}

/// The output columns after the first `n` of `columns` have been added, each
/// aliased `col_i` with `i` its position in the output.
pub open spec fn expand(
    out: Seq<ColumnView>,
    columns: Seq<Seq<char>>,
    n: nat,
    qualifier: Option<Seq<char>>,
) -> Seq<ColumnView>
    decreases n,
{
    if n == 0 || n > columns.len() {
        out
    } else {
        let before = expand(out, columns, (n - 1) as nat, qualifier);
        before.push(
            ColumnView {
                source: star_source(qualifier, columns[n - 1]),
                alias: col_name_spec(before.len()),
            },
        )
    }
}

/// The analysis after the expansion of a star over `table`, which goes by
/// `key` in the schema: every column of the table is mentioned and becomes an
/// output column.
pub open spec fn star_step(
    a: Analysis,
    key: Seq<char>,
    table: NormalizedTable,
    qualifier: Option<Seq<char>>,
) -> Analysis {
    let names = views(table.columns@);
    Analysis {
        tables: note_columns(note_table(a.tables, key), key, names, names.len()),
        columns: expand(a.columns, names, names.len(), qualifier),
        ..a
    }
}

/// The analysis after item `k` of the projection.
pub open spec fn column_step(
    c: ResultColumn,
    k: nat,
    from: Option<Seq<char>>,
    schema: Tables,
    a: Analysis,
) -> Result<Analysis, ErrorView>
    decreases c, 0nat,
{
    match c {
        ResultColumn::Expr(e, _) => match expr_step(e, schema, a) {
            Err(x) => Err(x),
            Ok(a1) => Ok(
                Analysis {
                    columns: a1.columns.push(
                        ColumnView {
                            source: SourceView::Projected(k),
                            alias: col_name_spec(a1.columns.len()),
                        },
                    ),
                    ..a1
                },
            ),
        },
        ResultColumn::Star => match from {
            None => Err(ErrorView::TableRequired),
            Some(t) => if schema.contains_key(t) {
                Ok(star_step(a, t, schema[t], None))
            } else {
                Err(ErrorView::TableStarNotFound { tbl_name: t })
            },
        },
        ResultColumn::TableStar(written) => {
            let t = resolve(a.aliases, written@);
            if schema.contains_key(t) {
                Ok(star_step(a, t, schema[t], Some(written@)))
            } else {
                Err(ErrorView::TableStarNotFound { tbl_name: t })
            }
        },
    }
}

/// The analysis after the first `n` items of the projection.
pub open spec fn columns_step(
    cs: Vec<ResultColumn>,
    n: nat,
    from: Option<Seq<char>>,
    schema: Tables,
    a: Analysis,
) -> Result<Analysis, ErrorView>
    decreases cs, n,
{
    if n == 0 || n > cs.len() {
        Ok(a)
    } else {
        match columns_step(cs, (n - 1) as nat, from, schema, a) {
            Err(x) => Err(x),
            Ok(a1) => column_step(cs[n - 1], (n - 1) as nat, from, schema, a1),
        }
    }
}

/// The analysis after the `FROM` clause: its first table, then its joins.
pub open spec fn from_step(f: FromClause, schema: Tables, a: Analysis) -> Result<Analysis, ErrorView>
    decreases f, 0nat,
{
    match table_step(f.select, schema, a) {
        Err(x) => Err(x),
        Ok(a1) => joins_step(f.joins, f.joins.len() as nat, schema, a1),
    }
}

/// The analysis of a `SELECT`: `FROM` and its joins, then `WHERE`, then the
/// projection. The first error met ends it.
pub open spec fn select_analysis(s: Select, schema: Tables) -> Result<Analysis, ErrorView>
    decreases s, 0nat,
{
    let after_from = match s.from {
        Some(f) => from_step(f, schema, empty_analysis()),
        None => Ok(empty_analysis()),
    };
    match after_from {
        Err(x) => Err(x),
        Ok(a1) => {
            let after_where = match s.where_clause {
                Some(w) => expr_step(w, schema, a1),
                None => Ok(a1),
            };
            match after_where {
                Err(x) => Err(x),
                Ok(a2) => columns_step(s.columns, s.columns.len() as nat, star_table(s.from), schema, a2),
            }
        },
    }
}

/// Output column `i` is aliased `col_i`.
pub open spec fn numbered(columns: Seq<ColumnView>) -> bool {
    forall|i: int| 0 <= i < columns.len() ==> (#[trigger] columns[i]).alias == col_name_spec(i as nat)
}

/// No table and no alias stands twice, and the output columns are numbered
/// from zero.
pub open spec fn well_formed(a: Analysis) -> bool {
    &&& distinct_keys(a.tables)
    &&& distinct_keys(a.aliases)
    &&& numbered(a.columns)
}

/// The tables of `b` begin with the tables of `a`, in the same order.
pub open spec fn begins_with(b: Entries, a: Entries) -> bool {
    &&& a.len() <= b.len()
    &&& forall|i: int| 0 <= i < a.len() ==> (#[trigger] b[i]).0 == a[i].0
}

/// `table` is among the tables of `t`.
pub open spec fn mentions(t: Entries, table: Seq<char>) -> bool {
    exists|i: int| 0 <= i < t.len() && (#[trigger] t[i]).0 == table
}

/// `b` has the aliases and the output columns of `a`, its tables begin
/// with those of `a`, and they are distinct where those of `a` are.
pub open spec fn kept(a: Analysis, b: Analysis) -> bool {
    &&& b.aliases == a.aliases
    &&& b.columns == a.columns
    &&& begins_with(b.tables, a.tables)
    &&& distinct_keys(a.tables) ==> distinct_keys(b.tables)
}

/// A table stays among the tables when more are added.
pub proof fn lemma_mentions_kept(a: Entries, b: Entries, table: Seq<char>)
    requires
        begins_with(b, a),
        mentions(a, table),
    ensures
        mentions(b, table),
{
    let i = choose|i: int| 0 <= i < a.len() && (#[trigger] a[i]).0 == table;
    assert(b[i].0 == table);
}

/// Mentioning a table adds it behind the others, unless it is there, and
/// keeps the tables distinct.
pub proof fn lemma_note_table(t: Entries, table: Seq<char>)
    ensures
        begins_with(note_table(t, table), t),
        mentions(note_table(t, table), table),
        t.len() == 0 ==> note_table(t, table)[0].0 == table,
        distinct_keys(t) ==> distinct_keys(note_table(t, table)),
{
    lemma_key_index(t, table);
    let r = note_table(t, table);
    match key_index(t, table) {
        Some(i) => {
            assert(r[i].0 == table);
        },
        None => {
            assert(r[t.len() as int].0 == table);
        },
    }
}

/// Mentioning a column adds its table behind the others, unless it is
/// there, and keeps the tables distinct.
pub proof fn lemma_note_column(t: Entries, table: Seq<char>, column: Seq<char>)
    ensures
        begins_with(note_column(t, table, column), t),
        distinct_keys(t) ==> distinct_keys(note_column(t, table, column)),
{
    lemma_key_index(t, table);
}

/// As `lemma_note_column`, of several columns.
pub proof fn lemma_note_columns(t: Entries, table: Seq<char>, columns: Seq<Seq<char>>, n: nat)
    ensures
        begins_with(note_columns(t, table, columns, n), t),
        distinct_keys(t) ==> distinct_keys(note_columns(t, table, columns, n)),
    decreases n,
{
    if n != 0 && n <= columns.len() {
        lemma_note_columns(t, table, columns, (n - 1) as nat);
        lemma_note_column(note_columns(t, table, columns, (n - 1) as nat), table, columns[n - 1]);
    }
}

/// Expanding a star keeps the output columns numbered.
pub proof fn lemma_expand(out: Seq<ColumnView>, columns: Seq<Seq<char>>, n: nat, qualifier: Option<Seq<char>>)
    requires
        numbered(out),
    ensures
        numbered(expand(out, columns, n, qualifier)),
    decreases n,
{
    if n != 0 && n <= columns.len() {
        lemma_expand(out, columns, (n - 1) as nat, qualifier);
    }
}

/// Reading an expression changes neither the aliases nor the output
/// columns; it adds tables behind those that are there, and keeps them
/// distinct.
pub proof fn lemma_expr_step(e: Expr, schema: Tables, a: Analysis)
    ensures
        expr_step(e, schema, a) matches Ok(b) ==> kept(a, b),
    decreases e, 0nat,
{
    match e {
        Expr::Qualified(table, column) => {
            lemma_note_column(a.tables, resolve(a.aliases, table@), column@);
        },
        Expr::DoublyQualified(db, table, column) => {
            lemma_note_column(a.tables, resolve(a.aliases, table@), column@);
        },
        Expr::Between { lhs, start, end } => {
            lemma_expr_step(*lhs, schema, a);
            if let Ok(a1) = expr_step(*lhs, schema, a) {
                lemma_expr_step(*start, schema, a1);
                if let Ok(a2) = expr_step(*start, schema, a1) {
                    lemma_expr_step(*end, schema, a2);
                }
            }
        },
        Expr::Binary(lhs, _, rhs) => {
            lemma_expr_step(*lhs, schema, a);
            if let Ok(a1) = expr_step(*lhs, schema, a) {
                lemma_expr_step(*rhs, schema, a1);
            }
        },
        Expr::Case { base, when_then_pairs, else_expr } => {
            lemma_opt_expr_step(base, schema, a);
            if let Ok(a1) = opt_expr_step(base, schema, a) {
                lemma_whens_step(when_then_pairs, when_then_pairs.len() as nat, schema, a1);
                if let Ok(a2) = whens_step(when_then_pairs, when_then_pairs.len() as nat, schema, a1) {
                    lemma_opt_expr_step(else_expr, schema, a2);
                }
            }
        },
        Expr::Cast(inner) => {
            lemma_expr_step(*inner, schema, a);
        },
        Expr::Collate(inner) => {
            lemma_expr_step(*inner, schema, a);
        },
        Expr::FunctionCall { name, args, filter } => {
            lemma_exprs_step(args, args.len() as nat, schema, a);
            if let Ok(a1) = exprs_step(args, args.len() as nat, schema, a) {
                lemma_opt_expr_step(filter, schema, a1);
            }
        },
        Expr::InList { lhs, rhs } => {
            lemma_expr_step(*lhs, schema, a);
            if let Ok(a1) = expr_step(*lhs, schema, a) {
                lemma_exprs_step(rhs, rhs.len() as nat, schema, a1);
            }
        },
        Expr::InSelect { lhs, rhs } => {
            lemma_expr_step(*lhs, schema, a);
            if let Ok(a1) = expr_step(*lhs, schema, a) {
                lemma_with_child(*rhs, schema, a1);
            }
        },
        Expr::Exists(select) => {
            lemma_with_child(*select, schema, a);
        },
        Expr::Subquery(select) => {
            lemma_with_child(*select, schema, a);
        },
        Expr::IsNull(inner) => {
            lemma_expr_step(*inner, schema, a);
        },
        Expr::Like { lhs, rhs, escape } => {
            lemma_expr_step(*lhs, schema, a);
            if let Ok(a1) = expr_step(*lhs, schema, a) {
                lemma_expr_step(*rhs, schema, a1);
                if let Ok(a2) = expr_step(*rhs, schema, a1) {
                    lemma_opt_expr_step(escape, schema, a2);
                }
            }
        },
        Expr::NotNull(inner) => {
            lemma_expr_step(*inner, schema, a);
        },
        Expr::Parenthesized(inner) => {
            lemma_exprs_step(inner, inner.len() as nat, schema, a);
        },
        Expr::Unary(inner) => {
            lemma_expr_step(*inner, schema, a);
        },
        _ => {},
    }
}

/// Adding the analysis of a subquery changes only the children.
pub proof fn lemma_with_child(select: Select, schema: Tables, a: Analysis)
    ensures
        with_child(select, schema, a) matches Ok(b) ==> kept(a, b),
{
}

/// As `lemma_expr_step`, of an expression that may be missing.
pub proof fn lemma_opt_expr_step(e: Option<Box<Expr>>, schema: Tables, a: Analysis)
    ensures
        opt_expr_step(e, schema, a) matches Ok(b) ==> kept(a, b),
    decreases e, 0nat,
{
    match e {
        Some(inner) => {
            lemma_expr_step(*inner, schema, a);
        },
        None => {},
    }
}

/// As `lemma_expr_step`, of a list of expressions.
pub proof fn lemma_exprs_step(es: Vec<Expr>, n: nat, schema: Tables, a: Analysis)
    ensures
        exprs_step(es, n, schema, a) matches Ok(b) ==> kept(a, b),
    decreases es, n,
{
    if n != 0 && n <= es.len() {
        lemma_exprs_step(es, (n - 1) as nat, schema, a);
        if let Ok(a1) = exprs_step(es, (n - 1) as nat, schema, a) {
            lemma_expr_step(es[n - 1], schema, a1);
        }
    }
}

/// As `lemma_expr_step`, of the arms of a `CASE`.
pub proof fn lemma_whens_step(ws: Vec<WhenThen>, n: nat, schema: Tables, a: Analysis)
    ensures
        whens_step(ws, n, schema, a) matches Ok(b) ==> kept(a, b),
    decreases ws, n,
{
    if n != 0 && n <= ws.len() {
        lemma_whens_step(ws, (n - 1) as nat, schema, a);
        if let Ok(a1) = whens_step(ws, (n - 1) as nat, schema, a) {
            lemma_expr_step(ws[n - 1].when_expr, schema, a1);
            if let Ok(a2) = expr_step(ws[n - 1].when_expr, schema, a1) {
                lemma_expr_step(ws[n - 1].then_expr, schema, a2);
            }
        }
    }
}

/// Reading a table of `FROM` or `JOIN` keeps the analysis well formed and
/// its output columns as they are.
pub proof fn lemma_table_step(t: SelectTable, schema: Tables, a: Analysis)
    requires
        well_formed(a),
    ensures
        table_step(t, schema, a) matches Ok(b) ==> well_formed(b) && b.columns == a.columns
            && begins_with(b.tables, a.tables) && (t matches SelectTable::Table(name, _)
            ==> mentions(b.tables, name.name@) && (a.tables.len() == 0 ==> b.tables[0].0
            == name.name@)),
{
    match t {
        SelectTable::Table(name, alias) => {
            lemma_note_table(a.tables, name.name@);
            match table_alias(name, alias) {
                Some(al) => {
                    lemma_put_distinct(a.aliases, al, name.name@);
                },
                None => {},
            }
        },
        SelectTable::Other => {},
    }
}

/// Reading one join keeps the analysis well formed and its output columns
/// as they are.
pub proof fn lemma_join_step(j: JoinedSelectTable, schema: Tables, a: Analysis)
    requires
        well_formed(a),
    ensures
        join_step(j, schema, a) matches Ok(b) ==> well_formed(b) && b.columns == a.columns
            && begins_with(b.tables, a.tables) && (j.table matches SelectTable::Table(name, _)
            ==> mentions(b.tables, name.name@)),
{
    match j.table {
        SelectTable::Table(name, alias) => {
            lemma_table_step(j.table, schema, a);
            if let Ok(a1) = table_step(j.table, schema, a) {
                match j.constraint {
                    Some(JoinConstraint::On(e)) => {
                        lemma_expr_step(e, schema, a1);
                        if let Ok(b) = expr_step(e, schema, a1) {
                            lemma_mentions_kept(a1.tables, b.tables, name.name@);
                        }
                    },
                    Some(JoinConstraint::Using(names)) => {
                        lemma_note_columns(a1.tables, name.name@, views(names@), names.len() as nat);
                        lemma_mentions_kept(
                            a1.tables,
                            note_columns(a1.tables, name.name@, views(names@), names.len() as nat),
                            name.name@,
                        );
                    },
                    None => {},
                }
            }
        },
        SelectTable::Other => {},
    }
}

/// Reading the joins keeps the analysis well formed and its output columns
/// as they are, and adds tables behind those that are there.
pub proof fn lemma_joins_step(js: Vec<JoinedSelectTable>, n: nat, schema: Tables, a: Analysis)
    requires
        well_formed(a),
    ensures
        joins_step(js, n, schema, a) matches Ok(b) ==> well_formed(b) && b.columns == a.columns
            && begins_with(b.tables, a.tables),
    decreases n,
{
    if n != 0 && n <= js.len() {
        lemma_joins_step(js, (n - 1) as nat, schema, a);
        if let Ok(a1) = joins_step(js, (n - 1) as nat, schema, a) {
            lemma_join_step(js[n - 1], schema, a1);
        }
    }
}

/// After the first `n` joins, the table of join `j` among them is among the
/// tables.
pub proof fn lemma_joined_table_mentioned(
    js: Vec<JoinedSelectTable>,
    n: nat,
    schema: Tables,
    a: Analysis,
    j: int,
)
    requires
        well_formed(a),
        0 <= j < n <= js.len(),
        js[j].table is Table,
    ensures
        joins_step(js, n, schema, a) matches Ok(b) ==> mentions(b.tables, js[j].table->Table_0.name@),
    decreases n,
{
    lemma_joins_step(js, (n - 1) as nat, schema, a);
    if let Ok(a1) = joins_step(js, (n - 1) as nat, schema, a) {
        lemma_join_step(js[n - 1], schema, a1);
        if j < n - 1 {
            lemma_joined_table_mentioned(js, (n - 1) as nat, schema, a, j);
            if let Ok(b) = join_step(js[n - 1], schema, a1) {
                lemma_mentions_kept(a1.tables, b.tables, js[j].table->Table_0.name@);
            }
        }
    }
}

/// Expanding a star keeps the analysis well formed.
pub proof fn lemma_star_step(a: Analysis, key: Seq<char>, table: NormalizedTable, qualifier: Option<Seq<char>>)
    requires
        well_formed(a),
    ensures
        well_formed(star_step(a, key, table, qualifier)),
        begins_with(star_step(a, key, table, qualifier).tables, a.tables),
{
    let names = views(table.columns@);
    lemma_note_table(a.tables, key);
    lemma_note_columns(note_table(a.tables, key), key, names, names.len());
    lemma_expand(a.columns, names, names.len(), qualifier);
}

/// Reading one item of the projection keeps the analysis well formed.
pub proof fn lemma_column_step(c: ResultColumn, k: nat, from: Option<Seq<char>>, schema: Tables, a: Analysis)
    requires
        well_formed(a),
    ensures
        column_step(c, k, from, schema, a) matches Ok(b) ==> well_formed(b) && begins_with(
            b.tables,
            a.tables,
        ),
{
    match c {
        ResultColumn::Expr(e, _) => {
            lemma_expr_step(e, schema, a);
        },
        ResultColumn::Star => {
            if let Some(t) = from {
                if schema.contains_key(t) {
                    lemma_star_step(a, t, schema[t], None);
                }
            }
        },
        ResultColumn::TableStar(written) => {
            let t = resolve(a.aliases, written@);
            if schema.contains_key(t) {
                lemma_star_step(a, t, schema[t], Some(written@));
            }
        },
    }
}

/// Reading the projection keeps the analysis well formed.
pub proof fn lemma_columns_step(
    cs: Vec<ResultColumn>,
    n: nat,
    from: Option<Seq<char>>,
    schema: Tables,
    a: Analysis,
)
    requires
        well_formed(a),
    ensures
        columns_step(cs, n, from, schema, a) matches Ok(b) ==> well_formed(b) && begins_with(
            b.tables,
            a.tables,
        ),
    decreases n,
{
    if n != 0 && n <= cs.len() {
        lemma_columns_step(cs, (n - 1) as nat, from, schema, a);
        if let Ok(a1) = columns_step(cs, (n - 1) as nat, from, schema, a) {
            lemma_column_step(cs[n - 1], (n - 1) as nat, from, schema, a1);
        }
    }
}

/// What every analysis holds to. In the analysis of any `SELECT` against
/// any schema no table stands twice among the referenced tables, no alias
/// stands twice among the aliases, and output column `i` is aliased
/// `col_i`, counted from zero.
pub proof fn law_analysis_well_formed(s: Select, schema: Tables)
    ensures
        select_analysis(s, schema) matches Ok(a) ==> well_formed(a),
{
    let start = empty_analysis();
    assert(well_formed(start));
    let after_from = match s.from {
        Some(f) => from_step(f, schema, start),
        None => Ok(start),
    };
    match s.from {
        Some(f) => {
            lemma_table_step(f.select, schema, start);
            if let Ok(a0) = table_step(f.select, schema, start) {
                lemma_joins_step(f.joins, f.joins.len() as nat, schema, a0);
            }
        },
        None => {},
    }
    if let Ok(a1) = after_from {
        let after_where = match s.where_clause {
            Some(w) => expr_step(w, schema, a1),
            None => Ok(a1),
        };
        match s.where_clause {
            Some(w) => {
                lemma_expr_step(w, schema, a1);
            },
            None => {},
        }
        if let Ok(a2) = after_where {
            lemma_columns_step(s.columns, s.columns.len() as nat, star_table(s.from), schema, a2);
        }
    }
}

/// Every output column of `columns` that is taken from the statement's own
/// projection is taken from one of the first `n` items of `cs`, and that
/// item is an expression.
pub open spec fn projected_within(columns: Seq<ColumnView>, cs: Vec<ResultColumn>, n: nat) -> bool {
    forall|i: int|
        0 <= i < columns.len() ==> ((#[trigger] columns[i]).source matches SourceView::Projected(k)
            ==> k < n && k < cs.len() && cs[k as int] is Expr)
}

/// Expanding a star adds no output column taken from the projection.
pub proof fn lemma_expand_projected(
    out: Seq<ColumnView>,
    columns: Seq<Seq<char>>,
    n: nat,
    qualifier: Option<Seq<char>>,
    cs: Vec<ResultColumn>,
    k: nat,
)
    requires
        projected_within(out, cs, k),
    ensures
        projected_within(expand(out, columns, n, qualifier), cs, k),
    decreases n,
{
    if n != 0 && n <= columns.len() {
        lemma_expand_projected(out, columns, (n - 1) as nat, qualifier, cs, k);
    }
}

/// After item `k` of the projection, every output column taken from the
/// projection is taken from one of the first `k + 1` items.
pub proof fn lemma_column_projected(
    cs: Vec<ResultColumn>,
    k: nat,
    from: Option<Seq<char>>,
    schema: Tables,
    a: Analysis,
)
    requires
        k < cs.len(),
        projected_within(a.columns, cs, k),
    ensures
        column_step(cs[k as int], k, from, schema, a) matches Ok(b) ==> projected_within(
            b.columns,
            cs,
            k + 1,
        ),
{
    match cs[k as int] {
        ResultColumn::Expr(e, _) => {
            lemma_expr_step(e, schema, a);
            if let Ok(a1) = expr_step(e, schema, a) {
                let b = column_step(cs[k as int], k, from, schema, a)->Ok_0;
                assert forall|i: int| 0 <= i < b.columns.len() implies ((#[trigger] b.columns[i]).source
                    matches SourceView::Projected(j) ==> j < k + 1 && j < cs.len() && cs[j as int]
                    is Expr) by {
                    if i < a.columns.len() {
                        assert(b.columns[i] == a.columns[i]);
                    }
                }
            }
        },
        ResultColumn::Star => {
            if let Some(t) = from {
                if schema.contains_key(t) {
                    let names = views(schema[t].columns@);
                    lemma_expand_projected(a.columns, names, names.len(), None, cs, k);
                    let out = expand(a.columns, names, names.len(), None);
                    assert forall|i: int| 0 <= i < out.len() implies ((#[trigger] out[i]).source
                        matches SourceView::Projected(j) ==> j < k + 1 && j < cs.len() && cs[j as int]
                        is Expr) by {}
                }
            }
        },
        ResultColumn::TableStar(written) => {
            let t = resolve(a.aliases, written@);
            if schema.contains_key(t) {
                let names = views(schema[t].columns@);
                lemma_expand_projected(a.columns, names, names.len(), Some(written@), cs, k);
                let out = expand(a.columns, names, names.len(), Some(written@));
                assert forall|i: int| 0 <= i < out.len() implies ((#[trigger] out[i]).source
                    matches SourceView::Projected(j) ==> j < k + 1 && j < cs.len() && cs[j as int]
                    is Expr) by {}
            }
        },
    }
}

/// After the first `n` items of the projection, every output column taken
/// from the projection is taken from one of them.
pub proof fn lemma_columns_projected(
    cs: Vec<ResultColumn>,
    n: nat,
    from: Option<Seq<char>>,
    schema: Tables,
    a: Analysis,
)
    requires
        n <= cs.len(),
        projected_within(a.columns, cs, 0),
    ensures
        columns_step(cs, n, from, schema, a) matches Ok(b) ==> projected_within(b.columns, cs, n),
    decreases n,
{
    if n != 0 {
        lemma_columns_projected(cs, (n - 1) as nat, from, schema, a);
        if let Ok(a1) = columns_step(cs, (n - 1) as nat, from, schema, a) {
            lemma_column_projected(cs, (n - 1) as nat, from, schema, a1);
        }
    }
}

/// What an output column is taken from. In the analysis of any `SELECT`,
/// an output column that is taken from the statement's own projection is
/// taken from an item that the projection has, and that item is an
/// expression, not a star.
pub proof fn law_projected_columns_exist(s: Select, schema: Tables)
    ensures
        select_analysis(s, schema) matches Ok(a) ==> projected_within(
            a.columns,
            s.columns,
            s.columns.len() as nat,
        ),
{
    let start = empty_analysis();
    assert(well_formed(start));
    let after_from = match s.from {
        Some(f) => from_step(f, schema, start),
        None => Ok(start),
    };
    match s.from {
        Some(f) => {
            lemma_table_step(f.select, schema, start);
            if let Ok(a0) = table_step(f.select, schema, start) {
                lemma_joins_step(f.joins, f.joins.len() as nat, schema, a0);
            }
        },
        None => {},
    }
    if let Ok(a1) = after_from {
        let after_where = match s.where_clause {
            Some(w) => expr_step(w, schema, a1),
            None => Ok(a1),
        };
        match s.where_clause {
            Some(w) => {
                lemma_expr_step(w, schema, a1);
            },
            None => {},
        }
        if let Ok(a2) = after_where {
            assert(a2.columns == Seq::<ColumnView>::empty());
            lemma_columns_projected(s.columns, s.columns.len() as nat, star_table(s.from), schema, a2);
        }
    }
}

/// The tables of `FROM` come first. In the analysis of any `SELECT`, every
/// table of `FROM` and `JOIN` is among the referenced tables, and the first
/// table of `FROM` is the first of them.
pub proof fn law_from_tables_referenced(s: Select, schema: Tables)
    ensures
        (select_analysis(s, schema) matches Ok(a) && s.from matches Some(f)) ==> {
            let a = select_analysis(s, schema)->Ok_0;
            let f = s.from->0;
            &&& f.select matches SelectTable::Table(name, _) ==> a.tables.len() > 0
                && a.tables[0].0 == name.name@
            &&& forall|j: int|
                0 <= j < f.joins.len() ==> ((#[trigger] f.joins[j]).table matches SelectTable::Table(
                    name,
                    _,
                ) ==> mentions(a.tables, name.name@))
        },
{
    let start = empty_analysis();
    assert(well_formed(start));
    if let Some(f) = s.from {
        lemma_table_step(f.select, schema, start);
        if let Ok(a0) = table_step(f.select, schema, start) {
            lemma_joins_step(f.joins, f.joins.len() as nat, schema, a0);
            if let Ok(a1) = joins_step(f.joins, f.joins.len() as nat, schema, a0) {
                let after_where = match s.where_clause {
                    Some(w) => expr_step(w, schema, a1),
                    None => Ok(a1),
                };
                match s.where_clause {
                    Some(w) => {
                        lemma_expr_step(w, schema, a1);
                    },
                    None => {},
                }
                if let Ok(a2) = after_where {
                    lemma_columns_step(
                        s.columns,
                        s.columns.len() as nat,
                        star_table(s.from),
                        schema,
                        a2,
                    );
                    if let Ok(a) = select_analysis(s, schema) {
                        assert(begins_with(a.tables, a1.tables));
                        assert(begins_with(a.tables, a0.tables));
                        assert forall|j: int| 0 <= j < f.joins.len() implies ((#[trigger] f.joins[j]).table
                            matches SelectTable::Table(name, _) ==> mentions(a.tables, name.name@)) by {
                            if let SelectTable::Table(name, _) = f.joins[j].table {
                                lemma_joined_table_mentioned(
                                    f.joins,
                                    f.joins.len() as nat,
                                    schema,
                                    a0,
                                    j,
                                );
                                lemma_mentions_kept(a1.tables, a.tables, name.name@);
                            }
                        }
                        if let SelectTable::Table(name, _) = f.select {
                            assert(a0.tables.len() > 0);
                            assert(a.tables[0].0 == a0.tables[0].0);
                        }
                    }
                }
            }
        }
    }
}

} // verus!
