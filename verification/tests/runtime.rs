use corro_pubsub::ast::{
    Cmd, Expr, FromClause, QualifiedName, ResultColumn, Select, SelectTable, Stmt,
};
use corro_pubsub::error::MatcherError;
use corro_pubsub::matcher::{Matcher, MatcherCmd, MatcherStmt};
use corro_pubsub::rewrite::rewrite;
use corro_pubsub::runtime::{Action, Event, Phase};
use corro_pubsub::schema::{NormalizedSchema, NormalizedTable};
use corro_pubsub::values::{ChangeType, RowResult, SqliteValue};
use tokio::sync::broadcast;
use tokio_util::sync::CancellationToken;

fn word(t: &str) -> String {
    t.to_string()
}

fn running() -> (Matcher, broadcast::Receiver<RowResult>) {
    let mut schema = NormalizedSchema::new();
    schema.insert(NormalizedTable::new(word("t"), vec![word("id"), word("v")], vec![word("id")]));
    let select = Select {
        columns: vec![ResultColumn::Expr(Expr::Qualified(word("t"), word("v")), None)],
        from: Some(FromClause {
            select: SelectTable::Table(QualifiedName { name: word("t"), alias: None }, None),
            joins: vec![],
        }),
        where_clause: None,
    };
    let rewritten = rewrite(&Some(Cmd::Stmt(Stmt::Select(select))), &schema).unwrap();
    let (change_tx, rx) = broadcast::channel(4);
    let (matcher, _inbox) = Matcher::new(
        1,
        rewritten,
        word("SELECT t.id AS __corro_pk_t_id, t.v AS col_0 FROM t;"),
        vec![word("SELECT t.id AS __corro_pk_t_id, t.v AS col_0 FROM t WHERE t.id IS ?;")],
        vec![word("v")],
        change_tx,
        CancellationToken::new(),
    )
    .unwrap();
    (matcher, rx)
}

const DROP: &str = "DROP TABLE watches.query_00000000000000000000000000000001";

#[test]
fn snapshot_goes_columns_rows_end() {
    let (m, _rx) = running();
    let (phase, action) = m.step(Phase::Created, Event::Started);
    assert_eq!(phase, Phase::Announcing);
    assert!(matches!(action, Action::SendInit(RowResult::Columns(names)) if names == vec![word("v")]));

    let (phase, action) = m.step(phase, Event::InitSent(true));
    assert_eq!(phase, Phase::Snapshotting);
    match action {
        Action::RunSnapshot(sql) => assert_eq!(
            sql,
            "INSERT INTO watches.query_00000000000000000000000000000001 (__corro_pk_t_id,col_0) \
             SELECT t.id AS __corro_pk_t_id, t.v AS col_0 FROM t RETURNING __corro_rowid,col_0"
        ),
        _ => panic!("the snapshot was not started"),
    }

    let (phase, action) = m.step(phase, Event::SnapshotRow { rowid: 1, cells: vec![SqliteValue::Integer(5)] });
    assert_eq!(phase, Phase::SendingRow);
    match action {
        Action::SendInit(row) => assert_eq!(
            row,
            RowResult::Row { rowid: 1, change_type: ChangeType::Upsert, cells: vec![SqliteValue::Integer(5)] }
        ),
        _ => panic!("the row was not sent"),
    }
    let (phase, action) = m.step(phase, Event::InitSent(true));
    assert_eq!(phase, Phase::Snapshotting);
    assert!(matches!(action, Action::NextRow));

    let (phase, action) = m.step(phase, Event::SnapshotDone);
    assert_eq!(phase, Phase::Closing);
    assert!(matches!(action, Action::SendInit(RowResult::EndOfQuery)));
    let (phase, action) = m.step(phase, Event::InitSent(true));
    assert_eq!(phase, Phase::Live);
    assert!(matches!(action, Action::AwaitCommand));
}

#[test]
fn snapshot_failure_is_told_and_ends_the_task() {
    let (m, _rx) = running();
    let (phase, action) = m.step(Phase::Snapshotting, Event::SnapshotFailed(word("disk I/O error")));
    assert_eq!(phase, Phase::Failing);
    assert!(matches!(action, Action::SendInit(RowResult::Error(e)) if e == "disk I/O error"));
    let (phase, action) = m.step(phase, Event::InitSent(true));
    assert_eq!(phase, Phase::Done);
    assert!(matches!(action, Action::Stop));
}

#[test]
fn lost_subscriber_ends_the_snapshot() {
    let (m, _rx) = running();
    let (phase, action) = m.step(Phase::Announcing, Event::InitSent(false));
    assert_eq!(phase, Phase::Done);
    assert!(matches!(action, Action::Stop));
    let (phase, action) = m.step(Phase::SendingRow, Event::InitSent(false));
    assert_eq!(phase, Phase::Failing);
    assert!(matches!(action, Action::SendInit(RowResult::Error(e)) if e == "change receiver is closed"));
    let (phase, action) = m.step(Phase::Closing, Event::InitSent(false));
    assert_eq!(phase, Phase::Done);
    assert!(matches!(action, Action::Stop));
}

#[test]
fn live_task_probes_changes() {
    let (m, _rx) = running();
    let stmt = MatcherStmt::new(word("N"), word("T"));
    let event = m.command_event(MatcherCmd::ProcessChange(stmt, vec![SqliteValue::Integer(3)]));
    let (phase, action) = m.step(Phase::Live, event);
    assert_eq!(phase, Phase::Busy);
    match action {
        Action::RunChange(stmt, pks) => {
            assert_eq!(stmt.new_query(), "N");
            assert_eq!(stmt.temp_query(), "T");
            assert_eq!(pks, vec![SqliteValue::Integer(3)]);
        }
        _ => panic!("the change was not probed"),
    }
    let (phase, action) = m.step(Phase::Busy, Event::ChangeDone(None));
    assert_eq!(phase, Phase::Live);
    assert!(matches!(action, Action::AwaitCommand));
    let (phase, action) = m.step(Phase::Busy, Event::ChangeDone(Some(MatcherError::Sqlite(word("busy")))));
    assert_eq!(phase, Phase::Live);
    assert!(matches!(action, Action::AwaitCommand));
}

#[test]
fn task_cleans_up_when_nobody_listens() {
    let (m, rx) = running();
    let event = m.command_event(MatcherCmd::Unsubscribe);
    assert!(matches!(event, Event::Unsubscribe { receivers: 1 }));
    let (phase, action) = m.step(Phase::Live, event);
    assert_eq!(phase, Phase::Live);
    assert!(matches!(action, Action::AwaitCommand));

    drop(rx);
    let event = m.command_event(MatcherCmd::Unsubscribe);
    assert!(matches!(event, Event::Unsubscribe { receivers: 0 }));
    let (phase, action) = m.step(Phase::Live, event);
    assert_eq!(phase, Phase::Cleaning);
    assert!(matches!(action, Action::DropTable(sql) if sql == DROP));
    let (phase, action) = m.step(phase, Event::TableDropped);
    assert_eq!(phase, Phase::Done);
    assert!(matches!(action, Action::Stop));
}

#[test]
fn task_cleans_up_on_cancellation_and_closed_receiver() {
    let (m, _rx) = running();
    let (phase, action) = m.step(Phase::Live, Event::Cancelled);
    assert_eq!(phase, Phase::Cleaning);
    assert!(matches!(action, Action::DropTable(sql) if sql == DROP));
    let (phase, action) = m.step(Phase::Busy, Event::ChangeDone(Some(MatcherError::ChangeReceiverClosed)));
    assert_eq!(phase, Phase::Cleaning);
    assert!(matches!(action, Action::DropTable(sql) if sql == DROP));
}

#[test]
fn unexpected_events_end_the_task() {
    let (m, _rx) = running();
    let (phase, action) = m.step(Phase::Live, Event::InboxClosed);
    assert_eq!(phase, Phase::Done);
    assert!(matches!(action, Action::Stop));
    let (phase, action) = m.step(Phase::Created, Event::SnapshotDone);
    assert_eq!(phase, Phase::Done);
    assert!(matches!(action, Action::Stop));
    let (phase, action) = m.step(Phase::Done, Event::Started);
    assert_eq!(phase, Phase::Done);
    assert!(matches!(action, Action::Stop));
}
