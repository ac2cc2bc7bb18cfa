use corro_pubsub::analyze::{ColumnSource, OutputColumn};
use corro_pubsub::ast as model;
use corro_pubsub::error::MatcherError;
use corro_pubsub::matcher::{row_step, Matcher, MatcherCmd, Probed, RowStep};
use corro_pubsub::rewrite::rewrite;
use corro_pubsub::runtime::{Action, Event, Phase};
use corro_pubsub::schema::{NormalizedSchema, NormalizedTable};
use corro_pubsub::values::{
    AggregateChange, ChangeEvent, ChangeType, NamedValue, RowResult, SqliteValue,
};
use fallible_iterator::FallibleIterator;
use rusqlite::types::Value;
use rusqlite::Connection;
use sqlite3_parser::ast as sq;
use sqlite3_parser::lexer::sql::Parser;
use tokio::sync::{broadcast, mpsc};
use tokio_util::sync::CancellationToken;

const WATCHED: &str = "SELECT json_object(
            'targets', json_array(cs.address||':'||cs.port),
            'labels',  json_object(
              '__metrics_path__', JSON_EXTRACT(cs.meta, '$.path'),
              'app',            cs.app_name,
              'vm_account_id',  cs.organization_id,
              'instance',       cs.instance_id
            )
          )
          FROM consul_services cs
            LEFT JOIN machines m                   ON m.id = cs.instance_id
            LEFT JOIN machine_versions mv          ON m.id = mv.machine_id  AND m.machine_version_id = mv.id
            LEFT JOIN machine_version_statuses mvs ON m.id = mvs.machine_id AND m.machine_version_id = mvs.id
          WHERE cs.node = 'test-hostname'
            AND (mvs.status IS NULL OR mvs.status = 'started')
            AND cs.name == 'app-prometheus'";

const SCHEMA: &str = "
          CREATE TABLE consul_services (
              node TEXT NOT NULL,
              id TEXT NOT NULL,
              name TEXT NOT NULL DEFAULT '',
              tags TEXT NOT NULL DEFAULT '[]',
              meta TEXT NOT NULL DEFAULT '{}',
              port INTEGER NOT NULL DEFAULT 0,
              address TEXT NOT NULL DEFAULT '',
              updated_at INTEGER NOT NULL DEFAULT 0,
              app_id INTEGER AS (CAST(JSON_EXTRACT(meta, '$.app_id') AS INTEGER)), network_id INTEGER AS (
                  CAST(JSON_EXTRACT(meta, '$.network_id') AS INTEGER)
              ), app_name TEXT AS (JSON_EXTRACT(meta, '$.app_name')), instance_id TEXT AS (
                  COALESCE(
                      JSON_EXTRACT(meta, '$.machine_id'),
                      SUBSTR(JSON_EXTRACT(meta, '$.alloc_id'), 1, 8),
                      CASE
                          WHEN INSTR(id, '_nomad-task-') = 1 THEN SUBSTR(id, 13, 8)
                          ELSE NULL
                      END
                  )
              ), organization_id INTEGER AS (
                  CAST(
                      JSON_EXTRACT(meta, '$.organization_id') AS INTEGER
                  )
              ), protocol TEXT
          AS (JSON_EXTRACT(meta, '$.protocol')),
              PRIMARY KEY (node, id)
          );

          CREATE TABLE machines (
              id TEXT NOT NULL PRIMARY KEY,
              node TEXT NOT NULL DEFAULT '',
              name TEXT NOT NULL DEFAULT '',
              machine_version_id TEXT NOT NULL DEFAULT '',
              app_id INTEGER NOT NULL DEFAULT 0,
              organization_id INTEGER NOT NULL DEFAULT 0,
              network_id INTEGER NOT NULL DEFAULT 0,
              updated_at INTEGER NOT NULL DEFAULT 0
          );

          CREATE TABLE machine_versions (
              machine_id TEXT NOT NULL,
              id TEXT NOT NULL DEFAULT '',
              config TEXT NOT NULL DEFAULT '{}',
              updated_at INTEGER NOT NULL DEFAULT 0,
              PRIMARY KEY (machine_id, id)
          );

          CREATE TABLE machine_version_statuses (
              machine_id TEXT NOT NULL,
              id TEXT NOT NULL,
              status TEXT NOT NULL DEFAULT '',
              updated_at INTEGER NOT NULL DEFAULT 0,
              PRIMARY KEY (machine_id, id)
          );
          ";

const SEED: &str = r#"
    INSERT INTO consul_services (node, id, name, address, port, meta) VALUES ('test-hostname', 'service-1', 'app-prometheus', '127.0.0.1', 1, '{"path": "/1", "machine_id": "m-1"}');
    INSERT INTO machines (id, machine_version_id) VALUES ('m-1', 'mv-1');
    INSERT INTO machine_versions (machine_id, id) VALUES ('m-1', 'mv-1');
    INSERT INTO machine_version_statuses (machine_id, id, status) VALUES ('m-1', 'mv-1', 'started');
    INSERT INTO consul_services (node, id, name, address, port, meta) VALUES ('test-hostname', 'service-2', 'not-app-prometheus', '127.0.0.1', 1, '{"path": "/1", "machine_id": "m-2"}');
    INSERT INTO machines (id, machine_version_id) VALUES ('m-2', 'mv-2');
    INSERT INTO machine_versions (machine_id, id) VALUES ('m-2', 'mv-2');
    INSERT INTO machine_version_statuses (machine_id, id, status) VALUES ('m-2', 'mv-2', 'started');
"#;

const THIRD: &str = r#"
    INSERT INTO consul_services (node, id, name, address, port, meta) VALUES ('test-hostname', 'service-3', 'app-prometheus', '127.0.0.1', 1, '{"path": "/1", "machine_id": "m-3"}');
    INSERT INTO machines (id, machine_version_id) VALUES ('m-3', 'mv-3');
    INSERT INTO machine_versions (machine_id, id) VALUES ('m-3', 'mv-3');
    INSERT INTO machine_version_statuses (machine_id, id, status) VALUES ('m-3', 'mv-3', 'started');
"#;

fn strings(list: &[&str]) -> Vec<String> {
    list.iter().map(|n| n.to_string()).collect()
}

fn schema() -> NormalizedSchema {
    let mut schema = NormalizedSchema::new();
    schema.insert(NormalizedTable::new(
        "consul_services".to_string(),
        strings(&[
            "node", "id", "name", "tags", "meta", "port", "address", "updated_at", "app_id", "network_id",
            "app_name", "instance_id", "organization_id", "protocol",
        ]),
        strings(&["node", "id"]),
    ));
    schema.insert(NormalizedTable::new(
        "machines".to_string(),
        strings(&["id", "node", "name", "machine_version_id", "app_id", "organization_id", "network_id", "updated_at"]),
        strings(&["id"]),
    ));
    schema.insert(NormalizedTable::new(
        "machine_versions".to_string(),
        strings(&["machine_id", "id", "config", "updated_at"]),
        strings(&["machine_id", "id"]),
    ));
    schema.insert(NormalizedTable::new(
        "machine_version_statuses".to_string(),
        strings(&["machine_id", "id", "status", "updated_at"]),
        strings(&["machine_id", "id"]),
    ));
    schema
}

fn boxed(e: &sq::Expr) -> Box<model::Expr> {
    Box::new(expr_model(e))
}

fn list_model(list: &Option<Vec<sq::Expr>>) -> Vec<model::Expr> {
    list.iter().flatten().map(expr_model).collect()
}

fn operator_model(op: &sq::Operator) -> model::Operator {
    match op {
        sq::Operator::Add => model::Operator::Add,
        sq::Operator::And => model::Operator::And,
        sq::Operator::ArrowRight => model::Operator::ArrowRight,
        sq::Operator::ArrowRightShift => model::Operator::ArrowRightShift,
        sq::Operator::BitwiseAnd => model::Operator::BitwiseAnd,
        sq::Operator::BitwiseOr => model::Operator::BitwiseOr,
        sq::Operator::Concat => model::Operator::Concat,
        sq::Operator::Equals => model::Operator::Equals,
        sq::Operator::Divide => model::Operator::Divide,
        sq::Operator::Greater => model::Operator::Greater,
        sq::Operator::GreaterEquals => model::Operator::GreaterEquals,
        sq::Operator::Is => model::Operator::Is,
        sq::Operator::IsNot => model::Operator::IsNot,
        sq::Operator::LeftShift => model::Operator::LeftShift,
        sq::Operator::Less => model::Operator::Less,
        sq::Operator::LessEquals => model::Operator::LessEquals,
        sq::Operator::Modulus => model::Operator::Modulus,
        sq::Operator::Multiply => model::Operator::Multiply,
        sq::Operator::NotEquals => model::Operator::NotEquals,
        sq::Operator::Or => model::Operator::Or,
        sq::Operator::RightShift => model::Operator::RightShift,
        sq::Operator::Substract => model::Operator::Substract,
    }
}

fn expr_model(e: &sq::Expr) -> model::Expr {
    match e {
        sq::Expr::Between { lhs, start, end, .. } => {
            model::Expr::Between { lhs: boxed(lhs), start: boxed(start), end: boxed(end) }
        }
        sq::Expr::Binary(l, op, r) => model::Expr::Binary(boxed(l), operator_model(op), boxed(r)),
        sq::Expr::Case { base, when_then_pairs, else_expr } => model::Expr::Case {
            base: base.as_ref().map(|b| boxed(b)),
            when_then_pairs: when_then_pairs
                .iter()
                .map(|(w, t)| model::WhenThen { when_expr: expr_model(w), then_expr: expr_model(t) })
                .collect(),
            else_expr: else_expr.as_ref().map(|b| boxed(b)),
        },
        sq::Expr::Cast { expr, .. } => model::Expr::Cast(boxed(expr)),
        sq::Expr::Collate(inner, _) => model::Expr::Collate(boxed(inner)),
        sq::Expr::DoublyQualified(db, t, c) => model::Expr::DoublyQualified(db.0.clone(), t.0.clone(), c.0.clone()),
        sq::Expr::Exists(s) => model::Expr::Exists(Box::new(select_model(s))),
        sq::Expr::FunctionCall { name, args, filter_over, .. } => model::Expr::FunctionCall {
            name: name.0.clone(),
            args: list_model(args),
            filter: filter_over.as_ref().and_then(|t| t.filter_clause.as_ref()).map(|f| boxed(f)),
        },
        sq::Expr::Id(id) => model::Expr::Id(id.0.clone()),
        sq::Expr::InList { lhs, rhs, .. } => model::Expr::InList { lhs: boxed(lhs), rhs: list_model(rhs) },
        sq::Expr::InSelect { lhs, rhs, .. } => {
            model::Expr::InSelect { lhs: boxed(lhs), rhs: Box::new(select_model(rhs)) }
        }
        sq::Expr::InTable { lhs, rhs, args, .. } => {
            model::Expr::InTable { lhs: boxed(lhs), table: rhs.name.0.clone(), args: list_model(args) }
        }
        sq::Expr::IsNull(inner) => model::Expr::IsNull(boxed(inner)),
        sq::Expr::Like { lhs, rhs, escape, .. } => {
            model::Expr::Like { lhs: boxed(lhs), rhs: boxed(rhs), escape: escape.as_ref().map(|b| boxed(b)) }
        }
        sq::Expr::Name(n) => model::Expr::Name(n.0.clone()),
        sq::Expr::NotNull(inner) => model::Expr::NotNull(boxed(inner)),
        sq::Expr::Parenthesized(inner) => model::Expr::Parenthesized(inner.iter().map(expr_model).collect()),
        sq::Expr::Qualified(t, c) => model::Expr::Qualified(t.0.clone(), c.0.clone()),
        sq::Expr::Subquery(s) => model::Expr::Subquery(Box::new(select_model(s))),
        sq::Expr::Unary(_, inner) => model::Expr::Unary(boxed(inner)),
        _ => model::Expr::Constant,
    }
}

fn as_model(alias: &Option<sq::As>) -> Option<model::As> {
    alias.as_ref().map(|a| match a {
        sq::As::As(n) => model::As::As(n.0.clone()),
        sq::As::Elided(n) => model::As::Elided(n.0.clone()),
    })
}

fn table_model(t: &sq::SelectTable) -> model::SelectTable {
    match t {
        sq::SelectTable::Table(name, alias, _) => model::SelectTable::Table(
            model::QualifiedName { name: name.name.0.clone(), alias: name.alias.as_ref().map(|a| a.0.clone()) },
            as_model(alias),
        ),
        _ => model::SelectTable::Other,
    }
}

fn select_model(s: &sq::Select) -> model::Select {
    match &s.body.select {
        sq::OneSelect::Select { columns, from, where_clause, .. } => model::Select {
            columns: columns
                .iter()
                .map(|c| match c {
                    sq::ResultColumn::Expr(e, alias) => model::ResultColumn::Expr(expr_model(e), as_model(alias)),
                    sq::ResultColumn::Star => model::ResultColumn::Star,
                    sq::ResultColumn::TableStar(n) => model::ResultColumn::TableStar(n.0.clone()),
                })
                .collect(),
            from: from.as_ref().map(|f| model::FromClause {
                select: table_model(f.select.as_ref().expect("a FROM clause has a first table")),
                joins: f
                    .joins
                    .iter()
                    .flatten()
                    .map(|j| model::JoinedSelectTable {
                        table: table_model(&j.table),
                        constraint: j.constraint.as_ref().map(|c| match c {
                            sq::JoinConstraint::On(e) => model::JoinConstraint::On(expr_model(e)),
                            sq::JoinConstraint::Using(names) => {
                                model::JoinConstraint::Using(names.iter().map(|n| n.0.clone()).collect())
                            }
                        }),
                    })
                    .collect(),
            }),
            where_clause: where_clause.as_ref().map(expr_model),
        },
        sq::OneSelect::Values(_) => model::Select { columns: Vec::new(), from: None, where_clause: None },
    }
}

fn stmt_model(stmt: &sq::Stmt) -> model::Stmt {
    match stmt {
        sq::Stmt::Select(s) => model::Stmt::Select(select_model(s)),
        _ => model::Stmt::Other,
    }
}

fn cmd_model(cmd: &sq::Cmd) -> model::Cmd {
    match cmd {
        sq::Cmd::Explain(s) => model::Cmd::Explain(stmt_model(s)),
        sq::Cmd::ExplainQueryPlan(s) => model::Cmd::ExplainQueryPlan(stmt_model(s)),
        sq::Cmd::Stmt(s) => model::Cmd::Stmt(stmt_model(s)),
    }
}

fn filter_expr(e: &model::Expr) -> sq::Expr {
    match e {
        model::Expr::Binary(l, model::Operator::And, r) => {
            sq::Expr::Binary(Box::new(filter_expr(l)), sq::Operator::And, Box::new(filter_expr(r)))
        }
        model::Expr::Binary(l, model::Operator::Is, r) => {
            sq::Expr::Binary(Box::new(filter_expr(l)), sq::Operator::Is, Box::new(filter_expr(r)))
        }
        model::Expr::Qualified(t, c) => sq::Expr::Qualified(sq::Name(t.clone()), sq::Name(c.clone())),
        model::Expr::Id(id) => sq::Expr::Id(sq::Id(id.clone())),
        _ => unreachable!("a filter holds nothing else"),
    }
}

fn render(stmt: &sq::Stmt, columns: &[OutputColumn], filter: Option<&model::Expr>) -> String {
    let mut stmt = stmt.clone();
    if let sq::Stmt::Select(select) = &mut stmt {
        if let sq::OneSelect::Select { columns: written, where_clause, .. } = &mut select.body.select {
            let originals = std::mem::take(written);
            for c in columns {
                let expr = match &c.source {
                    ColumnSource::Projected(k) => match &originals[*k] {
                        sq::ResultColumn::Expr(e, _) => e.clone(),
                        _ => unreachable!("only an expression is projected"),
                    },
                    ColumnSource::Name(n) => sq::Expr::Name(sq::Name(n.clone())),
                    ColumnSource::Qualified(t, n) => sq::Expr::Qualified(sq::Name(t.clone()), sq::Name(n.clone())),
                };
                written.push(sq::ResultColumn::Expr(expr, Some(sq::As::As(sq::Name(c.alias.clone())))));
            }
            if let Some(f) = filter {
                let f = filter_expr(f);
                *where_clause = Some(match where_clause.take() {
                    Some(prev) => sq::Expr::Binary(Box::new(f), sq::Operator::And, Box::new(prev)),
                    None => f,
                });
            }
        }
    }
    sq::Cmd::Stmt(stmt).to_string()
}

fn to_sql(v: &SqliteValue) -> Value {
    match v {
        SqliteValue::Null => Value::Null,
        SqliteValue::Integer(i) => Value::Integer(*i),
        SqliteValue::Real(bits) => Value::Real(f64::from_bits(*bits)),
        SqliteValue::Text(s) => Value::Text(s.clone()),
        SqliteValue::Blob(b) => Value::Blob(b.clone()),
    }
}

fn from_sql(v: Value) -> SqliteValue {
    match v {
        Value::Null => SqliteValue::Null,
        Value::Integer(i) => SqliteValue::Integer(i),
        Value::Real(f) => SqliteValue::Real(f.to_bits()),
        Value::Text(s) => SqliteValue::Text(s),
        Value::Blob(b) => SqliteValue::Blob(b),
    }
}

struct Watch {
    conn: Connection,
    matcher: Matcher,
    inbox: mpsc::Receiver<MatcherCmd>,
    deltas: broadcast::Receiver<RowResult>,
    phase: Phase,
    init: Vec<RowResult>,
    last: Action,
}

fn returned(conn: &mut Connection, sql: &str, params: &[SqliteValue]) -> Vec<(i64, Vec<SqliteValue>)> {
    let mut stmt = conn.prepare_cached(sql).expect("could not prepare");
    for (i, p) in params.iter().enumerate() {
        stmt.raw_bind_parameter(i + 1, to_sql(p)).expect("could not bind");
    }
    let n = stmt.column_count();
    let mut rows = stmt.raw_query();
    let mut out = Vec::new();
    while let Ok(Some(row)) = rows.next() {
        let rowid: i64 = row.get(0).expect("could not read rowid");
        let cells = (1..n).map(|i| from_sql(row.get::<_, Value>(i).expect("could not read cell"))).collect();
        out.push((rowid, cells));
    }
    out
}

fn watch(sql: &str) -> Watch {
    let mut conn = Connection::open_in_memory().expect("could not open conn");
    conn.execute_batch("ATTACH DATABASE ':memory:' AS watches").expect("could not attach");
    conn.execute_batch(SCHEMA).expect("could not exec schema");
    conn.execute_batch(SEED).expect("could not seed");
    let col_names: Vec<String> =
        conn.prepare(sql).expect("could not prepare").column_names().into_iter().map(|s| s.to_string()).collect();
    let cmd = Parser::new(sql.as_bytes()).next().expect("could not parse");
    let rewritten = rewrite(&cmd.as_ref().map(cmd_model), &schema()).expect("could not rewrite");
    let stmt = match cmd {
        Some(sq::Cmd::Stmt(stmt)) => stmt,
        _ => unreachable!("a rewritten command is a statement"),
    };
    let query = render(&stmt, &rewritten.columns, None);
    let new_queries: Vec<String> =
        rewritten.filters.iter().map(|f| render(&stmt, &rewritten.columns, Some(&f.filter))).collect();
    let (change_tx, deltas) = broadcast::channel(16);
    let (matcher, inbox) = Matcher::new(
        0x5eed_0000_0000_0000_0000_0000_0000_0001,
        rewritten,
        query,
        new_queries,
        col_names,
        change_tx,
        CancellationToken::new(),
    )
    .expect("could not build the matcher");
    conn.execute_batch(&matcher.create_statement()).expect("could not create the shadow table");
    let mut w = Watch { conn, matcher, inbox, deltas, phase: Phase::Created, init: Vec::new(), last: Action::Stop };
    w.report(Event::Started);
    loop {
        match std::mem::replace(&mut w.last, Action::Stop) {
            Action::SendInit(row) => {
                w.init.push(row);
                w.report(Event::InitSent(true));
            }
            Action::RunSnapshot(sql) => {
                for (rowid, cells) in returned(&mut w.conn, &sql, &[]) {
                    w.report(Event::SnapshotRow { rowid, cells });
                    match std::mem::replace(&mut w.last, Action::Stop) {
                        Action::SendInit(row) => w.init.push(row),
                        _ => panic!("a row of the snapshot was not sent"),
                    }
                    w.report(Event::InitSent(true));
                    assert!(matches!(w.last, Action::NextRow));
                }
                w.report(Event::SnapshotDone);
            }
            other => {
                w.last = other;
                break;
            }
        }
    }
    w
}

impl Watch {
    fn report(&mut self, event: Event) {
        let (phase, action) = self.matcher.step(self.phase, event);
        self.phase = phase;
        self.last = action;
    }

    // Delivers one change and returns what the subscribers were sent.
    fn deliver(&mut self, table: &str, pk: &[(&str, &str)], evt_type: ChangeEvent) -> Vec<RowResult> {
        let agg = AggregateChange {
            actor_id: 0,
            version: 1,
            table: table.to_string(),
            pk: pk
                .iter()
                .map(|(c, v)| NamedValue { column: c.to_string(), value: SqliteValue::Text(v.to_string()) })
                .collect(),
            evt_type,
            data: Vec::new(),
        };
        self.matcher.process_change(&agg).expect("could not enqueue");
        while let Ok(cmd) = self.inbox.try_recv() {
            let event = self.matcher.command_event(cmd);
            self.report(event);
            match std::mem::replace(&mut self.last, Action::Stop) {
                Action::RunChange(stmt, pks) => {
                    let outcome = self.probe(&stmt, &pks);
                    self.report(Event::ChangeDone(outcome.err()));
                }
                other => self.last = other,
            }
        }
        let mut out = Vec::new();
        while let Ok(row) = self.deltas.try_recv() {
            out.push(row);
        }
        out
    }

    fn probe(&mut self, stmt: &corro_pubsub::matcher::MatcherStmt, pks: &Vec<SqliteValue>) -> Result<(), MatcherError> {
        let probe = self.matcher.handle_change(stmt, pks);
        self.conn.execute_batch("BEGIN").map_err(|e| MatcherError::Sqlite(e.to_string()))?;
        for (change_type, sql) in [(ChangeType::Upsert, &probe.upsert), (ChangeType::Delete, &probe.delete)] {
            let mut rows = returned(&mut self.conn, sql, &probe.params).into_iter();
            loop {
                let probed = match rows.next() {
                    Some((rowid, cells)) => Probed::Row { rowid: Ok(rowid), cells: Some(cells) },
                    None => Probed::End,
                };
                match row_step(change_type, probed) {
                    RowStep::Publish(row) => self.matcher.publish(row)?,
                    RowStep::Finish => break,
                    RowStep::Stop => return Ok(()),
                    RowStep::Fail(e) => return Err(e),
                }
            }
        }
        self.conn.execute_batch("COMMIT").map_err(|e| MatcherError::Sqlite(e.to_string()))
    }

    fn shadow_cells(&self) -> Vec<String> {
        let sql = format!("SELECT col_0 FROM {} ORDER BY col_0", self.matcher.table_name());
        let mut stmt = self.conn.prepare(&sql).expect("could not prepare");
        let rows = stmt.query_map((), |row| row.get::<_, String>(0)).expect("could not query");
        rows.map(|r| r.expect("could not read")).collect()
    }

    fn shadow_row(&self, rowid: i64) -> Option<String> {
        let sql = format!("SELECT col_0 FROM {} WHERE __corro_rowid = {rowid}", self.matcher.table_name());
        let mut stmt = self.conn.prepare(&sql).expect("could not prepare");
        let mut rows = stmt.query(()).expect("could not query");
        rows.next().expect("could not read").map(|row| row.get::<_, String>(0).expect("could not read"))
    }

    fn watched_cells(&self) -> Vec<String> {
        let mut stmt = self.conn.prepare(WATCHED).expect("could not prepare");
        let rows = stmt.query_map((), |row| row.get::<_, String>(0)).expect("could not query");
        let mut cells: Vec<String> = rows.map(|r| r.expect("could not read")).collect();
        cells.sort();
        cells
    }
}

fn target(instance: &str) -> Vec<SqliteValue> {
    vec![SqliteValue::Text(format!(
        "{{\"targets\":[\"127.0.0.1:1\"],\"labels\":{{\"__metrics_path__\":\"/1\",\"app\":null,\"vm_account_id\":null,\"instance\":\"{instance}\"}}}}"
    ))]
}

fn service(id: &str) -> [(&'static str, &str); 2] {
    [("node", "test-hostname"), ("id", id)]
}

#[test]
fn test_diff() {
    let mut w = watch(WATCHED);

    assert_eq!(w.init.len(), 3);
    assert!(matches!(w.init[0], RowResult::Columns(_)));
    assert_eq!(w.init[1], RowResult::Row { rowid: 1, change_type: ChangeType::Upsert, cells: target("m-1") });
    assert!(matches!(w.init[2], RowResult::EndOfQuery));
    assert!(matches!(w.phase, Phase::Live));

    assert!(w.deliver("consul_services", &service("service-1"), ChangeEvent::Insert).is_empty());

    w.conn.execute_batch(THIRD).unwrap();
    assert_eq!(
        w.deliver("consul_services", &service("service-3"), ChangeEvent::Insert),
        vec![RowResult::Row { rowid: 2, change_type: ChangeType::Upsert, cells: target("m-3") }]
    );

    w.conn
        .execute_batch("DELETE FROM consul_services where node = 'test-hostname' AND id = 'service-1';")
        .unwrap();
    assert_eq!(
        w.deliver("consul_services", &service("service-1"), ChangeEvent::Delete),
        vec![RowResult::Row { rowid: 1, change_type: ChangeType::Delete, cells: target("m-1") }]
    );
}

#[test]
fn snapshot_names_the_columns_first() {
    let w = watch(WATCHED);
    match &w.init[0] {
        RowResult::Columns(names) => assert_eq!(names.len(), 1),
        _ => panic!("the first message is not the column names"),
    }
    assert_eq!(w.shadow_cells(), w.watched_cells());
}

#[test]
fn change_of_an_unwatched_table_does_nothing() {
    let mut w = watch(WATCHED);
    let before = w.conn.total_changes();
    assert!(w.deliver("unrelated", &[("id", "1")], ChangeEvent::Insert).is_empty());
    assert!(w.inbox.try_recv().is_err());
    assert_eq!(w.conn.total_changes(), before);
    assert!(matches!(w.phase, Phase::Live));
}

#[test]
fn same_change_twice_emits_once() {
    let mut w = watch(WATCHED);
    w.conn.execute_batch(THIRD).unwrap();
    assert_eq!(w.deliver("consul_services", &service("service-3"), ChangeEvent::Insert).len(), 1);
    assert!(w.deliver("consul_services", &service("service-3"), ChangeEvent::Insert).is_empty());
    assert_eq!(w.shadow_cells(), w.watched_cells());
}

#[test]
fn update_that_leaves_the_result_is_a_delete() {
    let mut w = watch(WATCHED);
    w.conn
        .execute_batch("UPDATE machine_version_statuses SET status = 'stopped' WHERE machine_id = 'm-1' AND id = 'mv-1'")
        .unwrap();
    assert_eq!(
        w.deliver("machine_version_statuses", &[("machine_id", "m-1"), ("id", "mv-1")], ChangeEvent::Update),
        vec![RowResult::Row { rowid: 1, change_type: ChangeType::Delete, cells: target("m-1") }]
    );
    assert!(w.shadow_cells().is_empty());
    assert_eq!(w.shadow_cells(), w.watched_cells());
}

#[test]
fn update_of_a_projected_value_is_an_upsert_of_the_same_row() {
    let mut w = watch(WATCHED);
    w.conn
        .execute_batch(
            r#"UPDATE consul_services SET meta = '{"path": "/metrics", "machine_id": "m-1"}' WHERE id = 'service-1'"#,
        )
        .unwrap();
    let sent = w.deliver("consul_services", &service("service-1"), ChangeEvent::Update);
    assert_eq!(sent.len(), 1);
    match &sent[0] {
        RowResult::Row { rowid, change_type, cells } => {
            assert_eq!(*rowid, 1);
            assert_eq!(*change_type, ChangeType::Upsert);
            assert_eq!(cells.len(), 1);
        }
        _ => panic!("not a row"),
    }
    assert_eq!(w.shadow_cells(), w.watched_cells());
}

#[test]
fn primary_key_values_follow_the_declared_order() {
    let mut w = watch(WATCHED);
    w.conn.execute_batch(THIRD).unwrap();
    let swapped = [("id", "service-3"), ("node", "test-hostname")];
    assert_eq!(
        w.deliver("consul_services", &swapped, ChangeEvent::Insert),
        vec![RowResult::Row { rowid: 2, change_type: ChangeType::Upsert, cells: target("m-3") }]
    );
}

#[test]
fn change_without_a_primary_key_value_is_refused() {
    let w = watch(WATCHED);
    let agg = AggregateChange {
        actor_id: 0,
        version: 1,
        table: "consul_services".to_string(),
        pk: vec![NamedValue { column: "node".to_string(), value: SqliteValue::Text("test-hostname".to_string()) }],
        evt_type: ChangeEvent::Insert,
        data: Vec::new(),
    };
    match w.matcher.process_change(&agg) {
        Err(MatcherError::AggPrimaryKeyMissing(t, c)) => {
            assert_eq!(t, "consul_services");
            assert_eq!(c, "id");
        }
        _ => panic!("a change without primary key value was not refused"),
    }
}

#[test]
fn emitted_rows_agree_with_the_shadow_table() {
    let mut w = watch(WATCHED);
    w.conn.execute_batch(THIRD).unwrap();
    for row in w.deliver("consul_services", &service("service-3"), ChangeEvent::Insert) {
        match row {
            RowResult::Row { rowid, change_type: ChangeType::Upsert, cells } => {
                assert_eq!(cells, vec![SqliteValue::Text(w.shadow_row(rowid).unwrap())]);
            }
            _ => panic!("not an upsert"),
        }
    }
    w.conn.execute_batch("DELETE FROM consul_services WHERE id = 'service-3'").unwrap();
    let sent = w.deliver("consul_services", &service("service-3"), ChangeEvent::Delete);
    assert_eq!(sent.len(), 1);
    for row in sent {
        match row {
            RowResult::Row { rowid, change_type: ChangeType::Delete, .. } => assert!(w.shadow_row(rowid).is_none()),
            _ => panic!("not a delete"),
        }
    }
}

#[test]
fn change_touches_only_rows_of_its_key() {
    let mut w = watch(WATCHED);
    w.conn.execute_batch(THIRD).unwrap();
    w.conn.execute_batch("DELETE FROM consul_services WHERE id = 'service-1'").unwrap();
    let before = w.shadow_row(1);
    let sent = w.deliver("consul_services", &service("service-3"), ChangeEvent::Insert);
    assert_eq!(sent, vec![RowResult::Row { rowid: 2, change_type: ChangeType::Upsert, cells: target("m-3") }]);
    assert_eq!(w.shadow_row(1), before);
    assert!(before.is_some());
}
