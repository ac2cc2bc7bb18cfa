//! The analyser: reads a `SELECT` against the schema and collects the tables
//! it refers to, their aliases, the rewritten projection and the subqueries.

use vstd::prelude::*;
use crate::aliases::{Aliases, resolve};
use crate::analysis::{
    Analysis, ColumnView, SourceView, Tables, column_step, columns_step, empty_analysis, expand,
    expr_step, exprs_step, from_step, join_step, joins_step, note_column, note_columns,
    note_table, opt_expr_step, register_table, select_analysis, star_step, star_table,
    table_step, whens_step, with_child, with_reference,
};
use crate::ast::{
    As, Expr, FromClause, JoinConstraint, JoinedSelectTable, QualifiedName, ResultColumn,
    Select, SelectTable, WhenThen,
};
use crate::error::{ErrorView, MatcherError, Unsupported};
use crate::ordered::{
    NameMap, entries, key_index, map_get, map_get_index, map_insert, map_len, map_new,
};
use crate::schema::{NormalizedSchema, NormalizedTable};
use crate::text::{clone_names, col_name, has_name, views};

verus! {

/// Where an output column takes its value from.
#[derive(Debug)]
pub enum ColumnSource {
    /// The expression at this position of the statement's own projection.
    Projected(usize),
    /// A column named without its table.
    Name(String),
    /// `table.column`, the table as written in the statement.
    Qualified(String, String),
}

/// One column of the rewritten projection: its source, aliased `col_i`.
#[derive(Debug)]
pub struct OutputColumn {
    pub source: ColumnSource,
    pub alias: String,
}

impl View for ColumnSource {
    type V = SourceView;

    open spec fn view(&self) -> SourceView {
        match self {
            ColumnSource::Projected(k) => SourceView::Projected(*k as nat),
            ColumnSource::Name(c) => SourceView::Name(c@),
            ColumnSource::Qualified(t, c) => SourceView::Qualified(t@, c@),
        }
    }
}

impl View for OutputColumn {
    type V = ColumnView;

    open spec fn view(&self) -> ColumnView {
        ColumnView { source: self.source@, alias: self.alias@ }
    }
}

/// The views of a list of output columns.
pub open spec fn column_views(v: Seq<OutputColumn>) -> Seq<ColumnView> {
    Seq::new(v.len(), |i: int| v[i]@)
}

/// What the analysis of a `SELECT` found.
pub struct ParsedSelect {
    pub(crate) table_columns: NameMap,
    pub(crate) aliases: Aliases,
    pub columns: Vec<OutputColumn>,
    pub(crate) children: Vec<ParsedSelect>,
}

/// The views of the first `n` of `children`.
pub closed spec fn child_views(children: Vec<ParsedSelect>, n: nat) -> Seq<Analysis>
    decreases children, n,
{
    if n == 0 || n > children.len() {
        Seq::empty()
    } else {
        child_views(children, (n - 1) as nat).push(children[n - 1].view())
    }
}

impl View for ParsedSelect {
    type V = Analysis;

    closed spec fn view(&self) -> Analysis
        decreases self,
    {
        Analysis {
            tables: entries(self.table_columns),
            aliases: self.aliases@,
            columns: column_views(self.columns@),
            children: child_views(self.children, self.children.len() as nat),
        }
    }
}

/// Mentions `table` in `m`.
fn mention_table(m: &mut NameMap, table: &String)
    ensures
        entries(*final(m)) == note_table(entries(*old(m)), table@),
{
    let known = map_get(m, table.as_str()).is_some();
    if !known {
        map_insert(m, table.clone(), Vec::new());
        assert(views(Seq::<String>::empty()) =~= Seq::<Seq<char>>::empty());
    }
}

/// Mentions `column` of `table` in `m`.
fn mention_column(m: &mut NameMap, table: &String, column: &String)
    ensures
        entries(*final(m)) == note_column(entries(*old(m)), table@, column@),
{
    let ghost before = entries(*m);
    let updated: Option<Vec<String>> = match map_get(m, table.as_str()) {
        Some(list) => {
            if has_name(list, column) {
                None
            } else {
                let mut l = clone_names(list);
                l.push(column.clone());
                assert(views(l@) =~= views(list@).push(column@));
                Some(l)
            }
        },
        None => {
            let mut l: Vec<String> = Vec::new();
            l.push(column.clone());
            assert(views(l@) =~= seq![column@]);
            Some(l)
        },
    };
    match updated {
        Some(l) => {
            map_insert(m, table.clone(), l);
        },
        None => {},
    }
}

/// `r` and the state `after` are what the definition `expected` gives.
pub open spec fn agrees(r: Result<(), MatcherError>, expected: Result<Analysis, ErrorView>, after: Analysis) -> bool {
    match r {
        Ok(_) => expected == Ok::<Analysis, ErrorView>(after),
        Err(e) => expected == Err::<Analysis, ErrorView>(e@),
    }
}

/// Children that agree on their first `n` items have the same first `n` views.
proof fn lemma_child_views_prefix(a: Vec<ParsedSelect>, b: Vec<ParsedSelect>, n: nat)
    requires
        n <= a.len(),
        n <= b.len(),
        forall|i: int| 0 <= i < n ==> a[i] == b[i],
    ensures
        child_views(a, n) == child_views(b, n),
    decreases n,
{
    if n > 0 {
        lemma_child_views_prefix(a, b, (n - 1) as nat);
    }
}

/// An error among the first `k` expressions is the error of the whole list.
proof fn lemma_exprs_error(es: Vec<Expr>, k: nat, n: nat, schema: Tables, a: Analysis)
    requires
        k <= n <= es.len(),
        exprs_step(es, k, schema, a) is Err,
    ensures
        exprs_step(es, n, schema, a) == exprs_step(es, k, schema, a),
    decreases n,
{
    if k < n {
        lemma_exprs_error(es, k, (n - 1) as nat, schema, a);
    }
}

/// An error among the first `k` arms is the error of the whole `CASE`.
proof fn lemma_whens_error(ws: Vec<WhenThen>, k: nat, n: nat, schema: Tables, a: Analysis)
    requires
        k <= n <= ws.len(),
        whens_step(ws, k, schema, a) is Err,
    ensures
        whens_step(ws, n, schema, a) == whens_step(ws, k, schema, a),
    decreases n,
{
    if k < n {
        lemma_whens_error(ws, k, (n - 1) as nat, schema, a);
    }
}

/// An error among the first `k` joins is the error of all of them.
proof fn lemma_joins_error(js: Vec<JoinedSelectTable>, k: nat, n: nat, schema: Tables, a: Analysis)
    requires
        k <= n <= js.len(),
        joins_step(js, k, schema, a) is Err,
    ensures
        joins_step(js, n, schema, a) == joins_step(js, k, schema, a),
    decreases n,
{
    if k < n {
        lemma_joins_error(js, k, (n - 1) as nat, schema, a);
    }
}

/// An error among the first `k` items is the error of the whole projection.
proof fn lemma_columns_error(
    cs: Vec<ResultColumn>,
    k: nat,
    n: nat,
    from: Option<Seq<char>>,
    schema: Tables,
    a: Analysis,
)
    requires
        k <= n <= cs.len(),
        columns_step(cs, k, from, schema, a) is Err,
    ensures
        columns_step(cs, n, from, schema, a) == columns_step(cs, k, from, schema, a),
    decreases n,
{
    if k < n {
        lemma_columns_error(cs, k, (n - 1) as nat, from, schema, a);
    }
}

/// The views of the children, item by item.
proof fn lemma_child_views(children: Vec<ParsedSelect>, n: nat)
    requires
        n <= children.len(),
    ensures
        child_views(children, n).len() == n,
        forall|i: int| 0 <= i < n ==> child_views(children, n)[i] == children[i]@,
    decreases n,
{
    if n > 0 {
        lemma_child_views(children, (n - 1) as nat);
        assert(child_views(children, n) == child_views(children, (n - 1) as nat).push(
            children[n - 1].view(),
        ));
    } else {
        assert(child_views(children, n) == Seq::<Analysis>::empty());
    }
}

impl ParsedSelect {
    /// The number of tables that the statement refers to.
    pub fn table_count(&self) -> (n: usize)
        ensures
            n == self@.tables.len(),
    {
        map_len(&self.table_columns)
    }

    /// The table at position `i` in order of first mention, with the columns
    /// that the statement refers to.
    pub fn table_at(&self, i: usize) -> (r: Option<(&String, &Vec<String>)>)
        ensures
            r is Some <==> i < self@.tables.len(),
            r matches Some(pair) ==> pair.0@ == self@.tables[i as int].0 && views(pair.1@)
                == self@.tables[i as int].1,
    {
        map_get_index(&self.table_columns, i)
    }

    /// The columns of `table` that the statement refers to, if it refers to
    /// the table.
    pub fn columns_of(&self, table: &String) -> (r: Option<&Vec<String>>)
        ensures
            r is Some <==> key_index(self@.tables, table@) is Some,
            r matches Some(list) ==> views(list@) == self@.tables[key_index(
                self@.tables,
                table@,
            )->0].1,
    {
        map_get(&self.table_columns, table.as_str())
    }

    /// The rewritten projection: one item per output column, in order.
    pub fn output_columns(&self) -> (r: &Vec<OutputColumn>)
        ensures
            column_views(r@) == self@.columns,
    {
        &self.columns
    }

    /// The aliases of the statement.
    pub fn aliases(&self) -> (r: &Aliases)
        ensures
            r@ == self@.aliases,
    {
        &self.aliases
    }

    /// The analyses of the subqueries, in the order in which they were met.
    pub fn children(&self) -> (r: &Vec<ParsedSelect>)
        ensures
            r.len() == self@.children.len(),
            forall|i: int| 0 <= i < r.len() ==> r[i]@ == self@.children[i],
    {
        proof {
            lemma_child_views(self.children, self.children.len() as nat);
        }
        &self.children
    }

    /// An analysis that has read nothing yet.
    pub fn new() -> (p: Self)
        ensures
            p@ == empty_analysis(),
    {
        let p = ParsedSelect {
            table_columns: map_new(),
            aliases: Aliases::new(),
            columns: Vec::new(),
            children: Vec::new(),
        };
        assert(column_views(p.columns@) =~= Seq::<ColumnView>::empty());
        p
    }

    /// Notes a reference to `column` of the table or alias `name`.
    fn reference(&mut self, name: &String, column: &String)
        ensures
            final(self)@ == with_reference(old(self)@, name@, column@),
    {
        let table = self.aliases.resolve(name);
        mention_column(&mut self.table_columns, &table, column);
    }

    /// Registers a table of `FROM` or `JOIN` with its alias.
    fn register(&mut self, name: &QualifiedName, alias: &Option<As>)
        ensures
            final(self)@ == register_table(old(self)@, *name, *alias),
    {
        match alias {
            Some(As::As(a)) => {
                self.aliases.insert(a.clone(), name.name.clone());
            },
            Some(As::Elided(a)) => {
                self.aliases.insert(a.clone(), name.name.clone());
            },
            None => match &name.alias {
                Some(a) => {
                    self.aliases.insert(a.clone(), name.name.clone());
                },
                None => {},
            },
        }
        mention_table(&mut self.table_columns, &name.name);
    }

    /// Adds the analysis of a subquery.
    fn add_child(&mut self, child: ParsedSelect)
        ensures
            final(self)@ == (Analysis { children: old(self)@.children.push(child@), ..old(self)@ }),
    {
        let ghost before = self.children;
        self.children.push(child);
        proof {
            lemma_child_views_prefix(before, self.children, before.len() as nat);
        }
    }
}

/// Reads the expressions of `es` in order.
fn extract_exprs(es: &Vec<Expr>, schema: &NormalizedSchema, parsed: &mut ParsedSelect) -> (r: Result<
    (),
    MatcherError,
>)
    ensures
        agrees(r, exprs_step(*es, es.len() as nat, schema.tables(), old(parsed)@), final(parsed)@),
    decreases es, 1nat,
{
    let ghost start = parsed@;
    let mut i: usize = 0;
    while i < es.len()
        invariant
            i <= es.len(),
            start == old(parsed)@,
            exprs_step(*es, i as nat, schema.tables(), start) == Ok::<Analysis, ErrorView>(parsed@),
        decreases es.len() - i,
    {
        match extract_expr_columns(&es[i], schema, parsed) {
            Ok(()) => {},
            Err(e) => {
                proof {
                    assert(exprs_step(*es, (i + 1) as nat, schema.tables(), start) == Err::<
                        Analysis,
                        ErrorView,
                    >(e@));
                    lemma_exprs_error(*es, (i + 1) as nat, es.len() as nat, schema.tables(), start);
                }
                return Err(e);
            },
        }
        i = i + 1;
    }
    Ok(())
}

/// Reads an expression that may be missing.
fn extract_opt_expr(e: &Option<Box<Expr>>, schema: &NormalizedSchema, parsed: &mut ParsedSelect) -> (r:
    Result<(), MatcherError>)
    ensures
        agrees(r, opt_expr_step(*e, schema.tables(), old(parsed)@), final(parsed)@),
    decreases e, 1nat,
{
    match e {
        Some(inner) => extract_expr_columns(inner, schema, parsed),
        None => Ok(()),
    }
}

/// Reads the arms of a `CASE` in order.
fn extract_whens(ws: &Vec<WhenThen>, schema: &NormalizedSchema, parsed: &mut ParsedSelect) -> (r: Result<
    (),
    MatcherError,
>)
    ensures
        agrees(r, whens_step(*ws, ws.len() as nat, schema.tables(), old(parsed)@), final(parsed)@),
    decreases ws, 1nat,
{
    let ghost start = parsed@;
    let mut i: usize = 0;
    while i < ws.len()
        invariant
            i <= ws.len(),
            start == old(parsed)@,
            whens_step(*ws, i as nat, schema.tables(), start) == Ok::<Analysis, ErrorView>(parsed@),
        decreases ws.len() - i,
    {
        match extract_expr_columns(&ws[i].when_expr, schema, parsed) {
            Ok(()) => {},
            Err(e) => {
                proof {
                    assert(whens_step(*ws, (i + 1) as nat, schema.tables(), start) == Err::<
                        Analysis,
                        ErrorView,
                    >(e@));
                    lemma_whens_error(*ws, (i + 1) as nat, ws.len() as nat, schema.tables(), start);
                }
                return Err(e);
            },
        }
        match extract_expr_columns(&ws[i].then_expr, schema, parsed) {
            Ok(()) => {},
            Err(e) => {
                proof {
                    assert(whens_step(*ws, (i + 1) as nat, schema.tables(), start) == Err::<
                        Analysis,
                        ErrorView,
                    >(e@));
                    lemma_whens_error(*ws, (i + 1) as nat, ws.len() as nat, schema.tables(), start);
                }
                return Err(e);
            },
        }
        i = i + 1;
    }
    Ok(())
}

/// Analyses a subquery and adds the result to the children.
fn extract_child(select: &Select, schema: &NormalizedSchema, parsed: &mut ParsedSelect) -> (r: Result<
    (),
    MatcherError,
>)
    ensures
        agrees(r, with_child(*select, schema.tables(), old(parsed)@), final(parsed)@),
    decreases select, 1nat,
{
    match extract_select_columns(select, schema) {
        Ok(child) => {
            parsed.add_child(child);
            Ok(())
        },
        Err(e) => Err(e),
    }
}

/// Reads one expression: notes every column it refers to and every subquery
/// in it.
pub fn extract_expr_columns(expr: &Expr, schema: &NormalizedSchema, parsed: &mut ParsedSelect) -> (r:
    Result<(), MatcherError>)
    ensures
        agrees(r, expr_step(*expr, schema.tables(), old(parsed)@), final(parsed)@),
    decreases expr, 0nat,
{
    match expr {
        Expr::Qualified(table, column) => {
            parsed.reference(table, column);
            Ok(())
        },
        Expr::DoublyQualified(db, table, column) => {
            if *db == "main".to_owned() {
                parsed.reference(table, column);
            }
            Ok(())
        },
        Expr::Name(name) => Err(MatcherError::UnsupportedExpr { expr: Unsupported::Name(name.clone()) }),
        Expr::InTable { lhs, table, args } => Err(
            MatcherError::UnsupportedExpr { expr: Unsupported::InTable(table.clone()) },
        ),
        Expr::Between { lhs, start, end } => {
            match extract_expr_columns(lhs, schema, parsed) {
                Ok(()) => {},
                Err(e) => {
                    return Err(e);
                },
            }
            match extract_expr_columns(start, schema, parsed) {
                Ok(()) => {},
                Err(e) => {
                    return Err(e);
                },
            }
            extract_expr_columns(end, schema, parsed)
        },
        Expr::Binary(lhs, _, rhs) => {
            match extract_expr_columns(lhs, schema, parsed) {
                Ok(()) => {},
                Err(e) => {
                    return Err(e);
                },
            }
            extract_expr_columns(rhs, schema, parsed)
        },
        Expr::Case { base, when_then_pairs, else_expr } => {
            match extract_opt_expr(base, schema, parsed) {
                Ok(()) => {},
                Err(e) => {
                    return Err(e);
                },
            }
            match extract_whens(when_then_pairs, schema, parsed) {
                Ok(()) => {},
                Err(e) => {
                    return Err(e);
                },
            }
            extract_opt_expr(else_expr, schema, parsed)
        },
        Expr::Cast(inner) => extract_expr_columns(inner, schema, parsed),
        Expr::Collate(inner) => extract_expr_columns(inner, schema, parsed),
        Expr::Exists(select) => extract_child(select, schema, parsed),
        Expr::FunctionCall { name, args, filter } => {
            match extract_exprs(args, schema, parsed) {
                Ok(()) => {},
                Err(e) => {
                    return Err(e);
                },
            }
            extract_opt_expr(filter, schema, parsed)
        },
        Expr::Id(_) => Ok(()),
        Expr::InList { lhs, rhs } => {
            match extract_expr_columns(lhs, schema, parsed) {
                Ok(()) => {},
                Err(e) => {
                    return Err(e);
                },
            }
            extract_exprs(rhs, schema, parsed)
        },
        Expr::InSelect { lhs, rhs } => {
            match extract_expr_columns(lhs, schema, parsed) {
                Ok(()) => {},
                Err(e) => {
                    return Err(e);
                },
            }
            extract_child(rhs, schema, parsed)
        },
        Expr::IsNull(inner) => extract_expr_columns(inner, schema, parsed),
        Expr::Like { lhs, rhs, escape } => {
            match extract_expr_columns(lhs, schema, parsed) {
                Ok(()) => {},
                Err(e) => {
                    return Err(e);
                },
            }
            match extract_expr_columns(rhs, schema, parsed) {
                Ok(()) => {},
                Err(e) => {
                    return Err(e);
                },
            }
            extract_opt_expr(escape, schema, parsed)
        },
        Expr::NotNull(inner) => extract_expr_columns(inner, schema, parsed),
        Expr::Parenthesized(inner) => extract_exprs(inner, schema, parsed),
        Expr::Subquery(select) => extract_child(select, schema, parsed),
        Expr::Unary(inner) => extract_expr_columns(inner, schema, parsed),
        Expr::Constant => Ok(()),
    }
}

/// Reads a table of `FROM` or `JOIN`.
fn extract_table(t: &SelectTable, schema: &NormalizedSchema, parsed: &mut ParsedSelect) -> (r: Result<
    (),
    MatcherError,
>)
    ensures
        agrees(r, table_step(*t, schema.tables(), old(parsed)@), final(parsed)@),
{
    match t {
        SelectTable::Table(name, alias) => {
            if schema.contains(name.name.as_str()) {
                parsed.register(name, alias);
                Ok(())
            } else {
                Err(MatcherError::TableNotFound(name.name.clone()))
            }
        },
        SelectTable::Other => Ok(()),
    }
}

/// Mentions the columns of a `USING` for `table`.
fn extract_using(parsed: &mut ParsedSelect, table: &String, names: &Vec<String>)
    ensures
        final(parsed)@ == (Analysis {
            tables: note_columns(old(parsed)@.tables, table@, views(names@), names.len() as nat),
            ..old(parsed)@
        }),
{
    let mut i: usize = 0;
    while i < names.len()
        invariant
            i <= names.len(),
            parsed@ == (Analysis {
                tables: note_columns(old(parsed)@.tables, table@, views(names@), i as nat),
                ..old(parsed)@
            }),
        decreases names.len() - i,
    {
        mention_column(&mut parsed.table_columns, table, &names[i]);
        i = i + 1;
    }
}

/// Reads one join: its table, then its constraint.
fn extract_join(j: &JoinedSelectTable, schema: &NormalizedSchema, parsed: &mut ParsedSelect) -> (r:
    Result<(), MatcherError>)
    ensures
        agrees(r, join_step(*j, schema.tables(), old(parsed)@), final(parsed)@),
    decreases j, 0nat,
{
    match &j.table {
        SelectTable::Table(name, alias) => {
            match extract_table(&j.table, schema, parsed) {
                Ok(()) => {},
                Err(e) => {
                    return Err(e);
                },
            }
            match &j.constraint {
                Some(JoinConstraint::On(e)) => extract_expr_columns(e, schema, parsed),
                Some(JoinConstraint::Using(names)) => {
                    extract_using(parsed, &name.name, names);
                    Ok(())
                },
                None => Ok(()),
            }
        },
        SelectTable::Other => Ok(()),
    }
}

/// Reads the joins in order.
fn extract_joins(js: &Vec<JoinedSelectTable>, schema: &NormalizedSchema, parsed: &mut ParsedSelect) -> (r:
    Result<(), MatcherError>)
    ensures
        agrees(r, joins_step(*js, js.len() as nat, schema.tables(), old(parsed)@), final(parsed)@),
    decreases js, 1nat,
{
    let ghost start = parsed@;
    let mut i: usize = 0;
    while i < js.len()
        invariant
            i <= js.len(),
            start == old(parsed)@,
            joins_step(*js, i as nat, schema.tables(), start) == Ok::<Analysis, ErrorView>(parsed@),
        decreases js.len() - i,
    {
        match extract_join(&js[i], schema, parsed) {
            Ok(()) => {},
            Err(e) => {
                proof {
                    assert(joins_step(*js, (i + 1) as nat, schema.tables(), start) == Err::<
                        Analysis,
                        ErrorView,
                    >(e@));
                    lemma_joins_error(*js, (i + 1) as nat, js.len() as nat, schema.tables(), start);
                }
                return Err(e);
            },
        }
        i = i + 1;
    }
    Ok(())
}

/// Reads the `FROM` clause: its first table, then its joins.
fn extract_from(f: &FromClause, schema: &NormalizedSchema, parsed: &mut ParsedSelect) -> (r: Result<
    (),
    MatcherError,
>)
    ensures
        agrees(r, from_step(*f, schema.tables(), old(parsed)@), final(parsed)@),
    decreases f, 0nat,
{
    match extract_table(&f.select, schema, parsed) {
        Ok(()) => {},
        Err(e) => {
            return Err(e);
        },
    }
    extract_joins(&f.joins, schema, parsed)
}

/// The views of `v` with one more column are those of `v` with its view.
proof fn lemma_column_views_push(v: Seq<OutputColumn>, c: OutputColumn)
    ensures
        column_views(v.push(c)) == column_views(v).push(c@),
{
    assert(column_views(v.push(c)) =~= column_views(v).push(c@));
}

/// Expands a star over `table`, filed under `key`: mentions each of its
/// columns and adds it to the projection, behind `qualifier` if there is one.
fn expand_star(parsed: &mut ParsedSelect, key: &String, table: &NormalizedTable, qualifier: Option<&String>)
    ensures
        final(parsed)@ == star_step(
            old(parsed)@,
            key@,
            *table,
            match qualifier {
                Some(w) => Some(w@),
                None => None,
            },
        ),
{
    let ghost start = parsed@;
    let ghost names = views(table.columns@);
    let ghost q: Option<Seq<char>> = match qualifier {
        Some(w) => Some(w@),
        None => None,
    };
    mention_table(&mut parsed.table_columns, key);
    let mut i: usize = 0;
    while i < table.columns.len()
        invariant
            i <= table.columns.len(),
            names == views(table.columns@),
            q == match qualifier {
                Some(w) => Some(w@),
                None => None::<Seq<char>>,
            },
            parsed@ == (Analysis {
                tables: note_columns(note_table(start.tables, key@), key@, names, i as nat),
                columns: expand(start.columns, names, i as nat, q),
                ..start
            }),
        decreases table.columns.len() - i,
    {
        let column = &table.columns[i];
        mention_column(&mut parsed.table_columns, key, column);
        let source = match qualifier {
            Some(w) => ColumnSource::Qualified(w.clone(), column.clone()),
            None => ColumnSource::Name(column.clone()),
        };
        let alias = col_name(parsed.columns.len());
        let out = OutputColumn { source, alias };
        proof {
            lemma_column_views_push(parsed.columns@, out);
        }
        parsed.columns.push(out);
        i = i + 1;
    }
}

/// Reads the projection: notes what its expressions refer to, expands the
/// stars, and gives every output column its alias.
pub fn extract_columns(
    columns: &Vec<ResultColumn>,
    from: Option<&String>,
    schema: &NormalizedSchema,
    parsed: &mut ParsedSelect,
) -> (r: Result<(), MatcherError>)
    ensures
        agrees(
            r,
            columns_step(
                *columns,
                columns.len() as nat,
                match from {
                    Some(t) => Some(t@),
                    None => None,
                },
                schema.tables(),
                old(parsed)@,
            ),
            final(parsed)@,
        ),
    decreases columns, 1nat,
{
    let ghost start = parsed@;
    let ghost f: Option<Seq<char>> = match from {
        Some(t) => Some(t@),
        None => None,
    };
    let mut k: usize = 0;
    while k < columns.len()
        invariant
            k <= columns.len(),
            start == old(parsed)@,
            f == match from {
                Some(t) => Some(t@),
                None => None::<Seq<char>>,
            },
            columns_step(*columns, k as nat, f, schema.tables(), start) == Ok::<Analysis, ErrorView>(
                parsed@,
            ),
        decreases columns.len() - k,
    {
        let ghost before = parsed@;
        let step: Result<(), MatcherError> = match &columns[k] {
            ResultColumn::Expr(e, _) => {
                match extract_expr_columns(e, schema, parsed) {
                    Ok(()) => {
                        let alias = col_name(parsed.columns.len());
                        let out = OutputColumn { source: ColumnSource::Projected(k), alias };
                        proof {
                            lemma_column_views_push(parsed.columns@, out);
                        }
                        parsed.columns.push(out);
                        Ok(())
                    },
                    Err(e) => Err(e),
                }
            },
            ResultColumn::Star => match from {
                None => Err(MatcherError::TableRequired),
                Some(t) => match schema.get(t.as_str()) {
                    Some(table) => {
                        expand_star(parsed, t, table, None);
                        Ok(())
                    },
                    None => Err(MatcherError::TableStarNotFound { tbl_name: t.clone() }),
                },
            },
            ResultColumn::TableStar(written) => {
                let t = parsed.aliases.resolve(written);
                match schema.get(t.as_str()) {
                    Some(table) => {
                        expand_star(parsed, &t, table, Some(written));
                        Ok(())
                    },
                    None => Err(MatcherError::TableStarNotFound { tbl_name: t }),
                }
            },
        };
        assert(agrees(step, column_step(columns[k as int], k as nat, f, schema.tables(), before), parsed@));
        match step {
            Ok(()) => {},
            Err(e) => {
                proof {
                    assert(columns_step(*columns, (k + 1) as nat, f, schema.tables(), start) == Err::<
                        Analysis,
                        ErrorView,
                    >(e@));
                    lemma_columns_error(
                        *columns,
                        (k + 1) as nat,
                        columns.len() as nat,
                        f,
                        schema.tables(),
                        start,
                    );
                }
                return Err(e);
            },
        }
        k = k + 1;
    }
    Ok(())
}

/// The table that `*` expands: the first of `FROM`, where that is a table.
fn first_table(from: &Option<FromClause>) -> (r: Option<&String>)
    ensures
        match r {
            Some(t) => star_table(*from) == Some(t@),
            None => star_table(*from) is None,
        },
{
    match from {
        Some(f) => match &f.select {
            SelectTable::Table(name, _) => Some(&name.name),
            SelectTable::Other => None,
        },
        None => None,
    }
}

/// Analyses a `SELECT` against the schema: `FROM` and its joins, then
/// `WHERE`, then the projection.
pub fn extract_select_columns(select: &Select, schema: &NormalizedSchema) -> (r: Result<
    ParsedSelect,
    MatcherError,
>)
    ensures
        match r {
            Ok(p) => select_analysis(*select, schema.tables()) == Ok::<Analysis, ErrorView>(p@),
            Err(e) => select_analysis(*select, schema.tables()) == Err::<Analysis, ErrorView>(e@),
        },
    decreases select, 0nat,
{
    let mut parsed = ParsedSelect::new();
    match &select.from {
        Some(f) => {
            match extract_from(f, schema, &mut parsed) {
                Ok(()) => {},
                Err(e) => {
                    return Err(e);
                },
            }
        },
        None => {},
    }
    match &select.where_clause {
        Some(w) => {
            match extract_expr_columns(w, schema, &mut parsed) {
                Ok(()) => {},
                Err(e) => {
                    return Err(e);
                },
            }
        },
        None => {},
    }
    match extract_columns(&select.columns, first_table(&select.from), schema, &mut parsed) {
        Ok(()) => Ok(parsed),
        Err(e) => Err(e),
    }
}

} // verus!
