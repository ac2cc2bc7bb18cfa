use corro_pubsub::aliases::Aliases;
use corro_pubsub::analyze::ColumnSource;
use corro_pubsub::ast::{
    Cmd, Expr, FromClause, Operator, QualifiedName, ResultColumn, Select, SelectTable, Stmt,
};
use corro_pubsub::ast::{As, JoinedSelectTable};
use corro_pubsub::error::MatcherError;
use corro_pubsub::rewrite::{expr_from_pk, pk_alias, rewrite, table_to_expr};
use corro_pubsub::schema::{NormalizedSchema, NormalizedTable};

fn text(t: &str) -> String {
    t.to_string()
}

fn list(items: &[&str]) -> Vec<String> {
    items.iter().map(|n| n.to_string()).collect()
}

fn services_schema() -> NormalizedSchema {
    let mut schema = NormalizedSchema::new();
    schema.insert(NormalizedTable::new(
        text("consul_services"),
        list(&["node", "id", "name", "meta"]),
        list(&["node", "id"]),
    ));
    schema.insert(NormalizedTable::new(text("machines"), list(&["id", "machine_version_id"]), list(&["id"])));
    schema.insert(NormalizedTable::new(text("keyless"), list(&["x"]), list(&[])));
    schema
}

fn plain_table(name: &str, alias: Option<&str>) -> SelectTable {
    SelectTable::Table(QualifiedName { name: text(name), alias: None }, alias.map(|a| As::As(text(a))))
}

fn is_term(e: &Expr, table: &str, pk: &str) -> bool {
    match e {
        Expr::Binary(l, Operator::Is, r) => {
            matches!(&**l, Expr::Qualified(t, c) if t == table && c == pk) && matches!(&**r, Expr::Id(q) if q == "?")
        }
        _ => false,
    }
}

fn services_select() -> Select {
    Select {
        columns: vec![ResultColumn::Expr(Expr::Qualified(text("cs"), text("name")), None)],
        from: Some(FromClause {
            select: plain_table("consul_services", Some("cs")),
            joins: vec![JoinedSelectTable { table: plain_table("machines", Some("m")), constraint: None }],
        }),
        where_clause: None,
    }
}

#[test]
fn pk_alias_joins_table_and_column() {
    assert_eq!(pk_alias(&text("cs"), &text("node")), "__corro_pk_cs_node");
}

#[test]
fn expr_from_pk_is_an_is_comparison_with_a_parameter() {
    let e = expr_from_pk(&text("t"), &text("id")).unwrap();
    assert!(is_term(&e, "t", "id"));
}

#[test]
fn table_to_expr_conjoins_all_primary_key_columns() {
    let mut aliases = Aliases::new();
    aliases.insert(text("cs"), text("consul_services"));
    let table =
        NormalizedTable::new(text("consul_services"), list(&["node", "id", "name"]), list(&["node", "id"]));
    let e = table_to_expr(&aliases, &table, &text("consul_services")).unwrap();
    match e {
        Expr::Binary(l, Operator::And, r) => {
            assert!(is_term(&l, "cs", "node"));
            assert!(is_term(&r, "cs", "id"));
        }
        _ => panic!("not a conjunction"),
    }
}

#[test]
fn table_to_expr_refuses_a_table_without_primary_key() {
    let aliases = Aliases::new();
    let table = NormalizedTable::new(text("keyless"), list(&["x"]), list(&[]));
    match table_to_expr(&aliases, &table, &text("keyless")) {
        Err(MatcherError::NoPrimaryKey(t)) => assert_eq!(t, "keyless"),
        _ => panic!("table without primary key was not refused"),
    }
}

#[test]
fn rewrite_requires_one_select() {
    let schema = services_schema();
    assert!(matches!(rewrite(&None, &schema), Err(MatcherError::StatementRequired)));
    assert!(matches!(
        rewrite(&Some(Cmd::Explain(Stmt::Select(services_select()))), &schema),
        Err(MatcherError::StatementRequired)
    ));
    assert!(matches!(
        rewrite(&Some(Cmd::ExplainQueryPlan(Stmt::Other)), &schema),
        Err(MatcherError::StatementRequired)
    ));
    assert!(matches!(rewrite(&Some(Cmd::Stmt(Stmt::Other)), &schema), Err(MatcherError::UnsupportedStatement)));
}

#[test]
fn rewrite_requires_a_table() {
    let schema = services_schema();
    let select = Select { columns: vec![ResultColumn::Expr(Expr::Constant, None)], from: None, where_clause: None };
    assert!(matches!(rewrite(&Some(Cmd::Stmt(Stmt::Select(select))), &schema), Err(MatcherError::TableRequired)));
}

#[test]
fn rewrite_refuses_tables_it_cannot_watch() {
    let schema = services_schema();
    let select = Select {
        columns: vec![],
        from: Some(FromClause { select: plain_table("keyless", Some("k")), joins: vec![] }),
        where_clause: None,
    };
    match rewrite(&Some(Cmd::Stmt(Stmt::Select(select))), &schema) {
        Err(MatcherError::NoPrimaryKey(t)) => assert_eq!(t, "k"),
        _ => panic!("table without primary key was not refused"),
    }
    let select = Select {
        columns: vec![ResultColumn::Expr(Expr::Qualified(text("elsewhere"), text("x")), None)],
        from: Some(FromClause { select: plain_table("machines", None), joins: vec![] }),
        where_clause: None,
    };
    match rewrite(&Some(Cmd::Stmt(Stmt::Select(select))), &schema) {
        Err(MatcherError::TableNotFound(t)) => assert_eq!(t, "elsewhere"),
        _ => panic!("table outside the schema was not refused"),
    }
}

#[test]
fn rewrite_prefixes_the_projection_with_primary_keys() {
    let schema = services_schema();
    let w = rewrite(&Some(Cmd::Stmt(Stmt::Select(services_select()))), &schema).unwrap();
    let aliases: Vec<&str> = w.columns.iter().map(|c| c.alias.as_str()).collect();
    assert_eq!(aliases, vec!["__corro_pk_cs_node", "__corro_pk_cs_id", "__corro_pk_m_id", "col_0"]);
    assert!(matches!(&w.columns[0].source, ColumnSource::Qualified(t, c) if t == "cs" && c == "node"));
    assert!(matches!(&w.columns[2].source, ColumnSource::Qualified(t, c) if t == "m" && c == "id"));
    assert!(matches!(&w.columns[3].source, ColumnSource::Projected(0)));
    assert_eq!(w.filters.len(), 2);
    assert_eq!(w.filters[0].table, "consul_services");
    assert_eq!(w.filters[1].table, "machines");
    assert!(is_term(&w.filters[1].filter, "m", "id"));
    assert_eq!(w.pks.get("consul_services"), Some(&list(&["__corro_pk_cs_node", "__corro_pk_cs_id"])));
    assert_eq!(w.pks.get("machines"), Some(&list(&["__corro_pk_m_id"])));
    assert_eq!(w.keys.get("consul_services"), Some(&list(&["node", "id"])));
    assert_eq!(w.pks.len(), 2);
}

#[test]
fn table_is_well_formed_with_a_key_among_its_columns() {
    assert!(NormalizedTable::new(text("t"), list(&["a", "b"]), list(&["b"])).is_well_formed());
    assert!(!NormalizedTable::new(text("t"), list(&["a", "b"]), list(&[])).is_well_formed());
    assert!(!NormalizedTable::new(text("t"), list(&["a", "b"]), list(&["a", "c"])).is_well_formed());
}

#[test]
fn schema_finds_tables_by_name() {
    let schema = services_schema();
    assert!(schema.contains("machines"));
    assert!(!schema.contains("nope"));
    assert_eq!(schema.get("machines").unwrap().pk, list(&["id"]));
    assert!(schema.get("nope").is_none());
}
