//! The life of a matcher's task as a state machine: the snapshot, the loop
//! over commands, and the shutdown. The task performs each action and
//! reports what came of it as the next event.

use vstd::prelude::*;
use crate::error::{ErrorView, MatcherError, message_spec};
use crate::matcher::{Matcher, MatcherCmd, MatcherStmt, StmtView};
use crate::sql::{drop_spec, snapshot_spec};
use crate::ordered::entries;
use crate::text::{clone_names, views};
use crate::values::{ChangeType, RowResult, RowView, SqliteValue, ValueView, value_views};

verus! {

/// Where a matcher's task stands.
#[derive(Clone, Copy, Debug, PartialEq, Eq, Structural)]
pub enum Phase {
    /// The shadow table exists; nothing has been sent.
    Created,
    /// The column names are on their way to the subscriber.
    Announcing,
    /// The snapshot statement runs; its rows are read one by one.
    Snapshotting,
    /// A row of the snapshot is on its way to the subscriber.
    SendingRow,
    /// The snapshot is committed; its end is on its way to the subscriber.
    Closing,
    /// The snapshot failed; the error is on its way to the subscriber.
    Failing,
    /// The task waits for a command or for cancellation.
    Live,
    /// A change is being probed.
    Busy,
    /// The shadow table is being removed.
    Cleaning,
    /// The task has ended.
    Done,
}

/// What the task reports.
pub enum Event {
    /// The task has begun.
    Started,
    /// The message of the last `SendInit` was taken, or was not.
    InitSent(bool),
    /// The snapshot statement handed back a row.
    SnapshotRow { rowid: i64, cells: Vec<SqliteValue> },
    /// The snapshot statement has no more rows and its transaction is committed.
    SnapshotDone,
    /// The snapshot failed, with the database's message.
    SnapshotFailed(String),
    /// A probe of one row has arrived in the inbox.
    Change(MatcherStmt, Vec<SqliteValue>),
    /// A subscriber has left; `receivers` are left.
    Unsubscribe { receivers: usize },
    /// The inbox is closed and empty.
    InboxClosed,
    /// The cancellation handle was tripped.
    Cancelled,
    /// The change has been handled: with the error, if it failed.
    ChangeDone(Option<MatcherError>),
    /// The removal of the shadow table has been tried.
    TableDropped,
}

/// What the task is to do next.
pub enum Action {
    /// Send the message to the subscriber that asked for the snapshot, and
    /// report `InitSent`.
    SendInit(RowResult),
    /// Run the statement in a transaction and report its first row, its end
    /// or its failure.
    RunSnapshot(String),
    /// Report the next row of the snapshot, its end or its failure.
    NextRow,
    /// Wait for a command or for cancellation, and report it.
    AwaitCommand,
    /// Probe the row, and report `ChangeDone`.
    RunChange(MatcherStmt, Vec<SqliteValue>),
    /// Run the statement, whatever comes of it, and report `TableDropped`.
    DropTable(String),
    /// End the task.
    Stop,
}

/// `Event` over views.
pub ghost enum EventView {
    Started,
    InitSent(bool),
    SnapshotRow { rowid: i64, cells: Seq<ValueView> },
    SnapshotDone,
    SnapshotFailed(Seq<char>),
    Change(StmtView, Seq<ValueView>),
    Unsubscribe { receivers: nat },
    InboxClosed,
    Cancelled,
    ChangeDone(Option<ErrorView>),
    TableDropped,
}

/// `Action` over views.
pub ghost enum ActionView {
    SendInit(RowView),
    RunSnapshot(Seq<char>),
    NextRow,
    AwaitCommand,
    RunChange(StmtView, Seq<ValueView>),
    DropTable(Seq<char>),
    Stop,
}

impl View for Event {
    type V = EventView;

    open spec fn view(&self) -> EventView {
        match self {
            Event::Started => EventView::Started,
            Event::InitSent(ok) => EventView::InitSent(*ok),
            Event::SnapshotRow { rowid, cells } => EventView::SnapshotRow {
                rowid: *rowid,
                cells: value_views(cells@),
            },
            Event::SnapshotDone => EventView::SnapshotDone,
            Event::SnapshotFailed(m) => EventView::SnapshotFailed(m@),
            Event::Change(stmt, pks) => EventView::Change(stmt@, value_views(pks@)),
            Event::Unsubscribe { receivers } => EventView::Unsubscribe { receivers: *receivers as nat },
            Event::InboxClosed => EventView::InboxClosed,
            Event::Cancelled => EventView::Cancelled,
            Event::ChangeDone(e) => EventView::ChangeDone(
                match e {
                    Some(e) => Some(e@),
                    None => None,
                },
            ),
            Event::TableDropped => EventView::TableDropped,
        }
    }
}

impl View for Action {
    type V = ActionView;

    open spec fn view(&self) -> ActionView {
        match self {
            Action::SendInit(row) => ActionView::SendInit(row@),
            Action::RunSnapshot(sql) => ActionView::RunSnapshot(sql@),
            Action::NextRow => ActionView::NextRow,
            Action::AwaitCommand => ActionView::AwaitCommand,
            Action::RunChange(stmt, pks) => ActionView::RunChange(stmt@, value_views(pks@)),
            Action::DropTable(sql) => ActionView::DropTable(sql@),
            Action::Stop => ActionView::Stop,
        }
    }
}

/// The texts that a matcher's task works with.
pub ghost struct Script {
    pub columns: Seq<Seq<char>>,
    pub snapshot: Seq<char>,
    pub drop: Seq<char>,
}

/// The next phase and the action, for each phase and event. An event that
/// the phase does not wait for ends the task.
pub open spec fn step_spec(script: Script, phase: Phase, event: EventView) -> (Phase, ActionView) {
    match (phase, event) {
        (Phase::Created, EventView::Started) => (
            Phase::Announcing,
            ActionView::SendInit(RowView::Columns(script.columns)),
        ),
        (Phase::Announcing, EventView::InitSent(true)) => (
            Phase::Snapshotting,
            ActionView::RunSnapshot(script.snapshot),
        ),
        (Phase::Snapshotting, EventView::SnapshotRow { rowid, cells }) => (
            Phase::SendingRow,
            ActionView::SendInit(RowView::Row { rowid, change_type: ChangeType::Upsert, cells }),
        ),
        (Phase::Snapshotting, EventView::SnapshotDone) => (
            Phase::Closing,
            ActionView::SendInit(RowView::EndOfQuery),
        ),
        (Phase::Snapshotting, EventView::SnapshotFailed(message)) => (
            Phase::Failing,
            ActionView::SendInit(RowView::Error(message)),
        ),
        (Phase::SendingRow, EventView::InitSent(true)) => (Phase::Snapshotting, ActionView::NextRow),
        (Phase::SendingRow, EventView::InitSent(false)) => (
            Phase::Failing,
            ActionView::SendInit(RowView::Error(message_spec(ErrorView::ChangeReceiverClosed))),
        ),
        (Phase::Closing, EventView::InitSent(true)) => (Phase::Live, ActionView::AwaitCommand),
        (Phase::Live, EventView::Change(stmt, pks)) => (Phase::Busy, ActionView::RunChange(stmt, pks)),
        (Phase::Live, EventView::Unsubscribe { receivers }) => if receivers == 0 {
            (Phase::Cleaning, ActionView::DropTable(script.drop))
        } else {
            (Phase::Live, ActionView::AwaitCommand)
        },
        (Phase::Live, EventView::Cancelled) => (Phase::Cleaning, ActionView::DropTable(script.drop)),
        (Phase::Busy, EventView::ChangeDone(Some(ErrorView::ChangeReceiverClosed))) => (
            Phase::Cleaning,
            ActionView::DropTable(script.drop),
        ),
        (Phase::Busy, EventView::ChangeDone(_)) => (Phase::Live, ActionView::AwaitCommand),
        _ => (Phase::Done, ActionView::Stop),
    }
}

impl Matcher {
    /// The texts that the matcher's task works with.
    pub open spec fn script(&self) -> Script {
        Script {
            columns: views(self.0.col_names@),
            snapshot: snapshot_spec(
                entries(self.0.pks),
                self.0.parsed@.columns.len(),
                self.0.qualified_table_name@,
                self.0.query@,
            ),
            drop: drop_spec(self.0.qualified_table_name@),
        }
    }

    /// The event that a command from the inbox comes to. For `Unsubscribe`
    /// the subscribers are counted at this moment.
    pub fn command_event(&self, cmd: MatcherCmd) -> (e: Event)
        ensures
            match cmd {
                MatcherCmd::ProcessChange(stmt, pks) => e@ == EventView::Change(
                    stmt@,
                    value_views(pks@),
                ),
                MatcherCmd::Unsubscribe => e@ is Unsubscribe,
            },
    {
        match cmd {
            MatcherCmd::ProcessChange(stmt, pks) => Event::Change(stmt, pks),
            MatcherCmd::Unsubscribe => Event::Unsubscribe { receivers: self.receiver_count() },
        }
    }

    /// The next phase of the matcher's task and what it is to do, given the
    /// phase it is in and what it reports.
    pub fn step(&self, phase: Phase, event: Event) -> (r: (Phase, Action))
        ensures
            (r.0, r.1@) == step_spec(self.script(), phase, event@),
    {
        match (phase, event) {
            (Phase::Created, Event::Started) => (
                Phase::Announcing,
                Action::SendInit(RowResult::Columns(clone_names(&self.0.col_names))),
            ),
            (Phase::Announcing, Event::InitSent(true)) => (
                Phase::Snapshotting,
                Action::RunSnapshot(self.snapshot_statement()),
            ),
            (Phase::Snapshotting, Event::SnapshotRow { rowid, cells }) => (
                Phase::SendingRow,
                Action::SendInit(RowResult::Row { rowid, change_type: ChangeType::Upsert, cells }),
            ),
            (Phase::Snapshotting, Event::SnapshotDone) => (
                Phase::Closing,
                Action::SendInit(RowResult::EndOfQuery),
            ),
            (Phase::Snapshotting, Event::SnapshotFailed(message)) => (
                Phase::Failing,
                Action::SendInit(RowResult::Error(message)),
            ),
            (Phase::SendingRow, Event::InitSent(true)) => (Phase::Snapshotting, Action::NextRow),
            (Phase::SendingRow, Event::InitSent(false)) => (
                Phase::Failing,
                Action::SendInit(RowResult::Error(MatcherError::ChangeReceiverClosed.message())),
            ),
            (Phase::Closing, Event::InitSent(true)) => (Phase::Live, Action::AwaitCommand),
            (Phase::Live, Event::Change(stmt, pks)) => (Phase::Busy, Action::RunChange(stmt, pks)),
            (Phase::Live, Event::Unsubscribe { receivers }) => {
                if receivers == 0 {
                    (Phase::Cleaning, Action::DropTable(self.drop_statement()))
                } else {
                    (Phase::Live, Action::AwaitCommand)
                }
            },
            (Phase::Live, Event::Cancelled) => (
                Phase::Cleaning,
                Action::DropTable(self.drop_statement()),
            ),
            (Phase::Busy, Event::ChangeDone(Some(MatcherError::ChangeReceiverClosed))) => (
                Phase::Cleaning,
                Action::DropTable(self.drop_statement()),
            ),
            (Phase::Busy, Event::ChangeDone(_)) => (Phase::Live, Action::AwaitCommand),
            _ => (Phase::Done, Action::Stop),
        }
    }
}

/// A task after some events: its phase and the actions it was given.
pub ghost struct Run {
    pub phase: Phase,
    pub actions: Seq<ActionView>,
}

/// The task after the first `n` of `events`, each answered by `step_spec`.
pub open spec fn run(script: Script, events: Seq<EventView>, n: nat) -> Run
    decreases n,
{
    if n == 0 || n > events.len() {
        Run { phase: Phase::Created, actions: Seq::empty() }
    } else {
        let before = run(script, events, (n - 1) as nat);
        let next = step_spec(script, before.phase, events[n - 1]);
        Run { phase: next.0, actions: before.actions.push(next.1) }
    }
}

/// The messages that `actions` send to the subscriber who asked for the
/// snapshot, in order.
pub open spec fn init_messages(actions: Seq<ActionView>) -> Seq<RowView>
    decreases actions.len(),
{
    if actions.len() == 0 {
        Seq::empty()
    } else {
        let front = init_messages(actions.drop_last());
        match actions.last() {
            ActionView::SendInit(message) => front.push(message),
            _ => front,
        }
    }
}

/// The messages of a snapshot, as far as it has come: the column names
/// first and only first, then rows, and nothing behind its end or an error.
pub open spec fn snapshot_shaped(script: Script, messages: Seq<RowView>) -> bool {
    &&& messages.len() > 0 ==> messages[0] == RowView::Columns(script.columns)
    &&& forall|i: int| 0 < i < messages.len() ==> !(#[trigger] messages[i] is Columns)
    &&& forall|i: int|
        0 <= i < messages.len() - 1 ==> (#[trigger] messages[i] is Columns) || messages[i] is Row
}

/// No message ends the snapshot.
pub open spec fn snapshot_open(messages: Seq<RowView>) -> bool {
    forall|i: int| 0 <= i < messages.len() ==> (#[trigger] messages[i] is Columns) || messages[i] is Row
}

/// The end of the snapshot is sent before any row is probed.
pub open spec fn probes_follow_snapshot(actions: Seq<ActionView>) -> bool {
    forall|k: int|
        0 <= k < actions.len() && (#[trigger] actions[k] is RunChange) ==> exists|j: int|
            0 <= j < k && actions[j] == ActionView::SendInit(RowView::EndOfQuery)
}

/// The end of the snapshot has been sent.
pub open spec fn snapshot_ended(actions: Seq<ActionView>) -> bool {
    exists|j: int| 0 <= j < actions.len() && actions[j] == ActionView::SendInit(RowView::EndOfQuery)
}

/// What holds of a task in each phase.
spec fn protocol_kept(script: Script, r: Run) -> bool {
    let messages = init_messages(r.actions);
    &&& snapshot_shaped(script, messages)
    &&& probes_follow_snapshot(r.actions)
    &&& r.phase == Phase::Created ==> r.actions.len() == 0
    &&& (r.phase == Phase::Snapshotting || r.phase == Phase::SendingRow) ==> messages.len() > 0
        && snapshot_open(messages)
    &&& (r.phase == Phase::Live || r.phase == Phase::Busy) ==> snapshot_ended(r.actions)
}

/// The messages after one more action.
proof fn lemma_init_messages_push(actions: Seq<ActionView>, next: ActionView)
    ensures
        init_messages(actions.push(next)) == match next {
            ActionView::SendInit(message) => init_messages(actions).push(message),
            _ => init_messages(actions),
        },
{
    assert(actions.push(next).drop_last() =~= actions);
}

proof fn lemma_protocol_kept(script: Script, events: Seq<EventView>, n: nat)
    requires
        n <= events.len(),
    ensures
        protocol_kept(script, run(script, events, n)),
    decreases n,
{
    if n == 0 {
        assert(init_messages(Seq::<ActionView>::empty()) =~= Seq::<RowView>::empty());
    } else {
        lemma_protocol_kept(script, events, (n - 1) as nat);
        let before = run(script, events, (n - 1) as nat);
        let next = step_spec(script, before.phase, events[n - 1]);
        let after = run(script, events, n);
        let old_messages = init_messages(before.actions);
        let messages = init_messages(after.actions);
        lemma_init_messages_push(before.actions, next.1);
        assert forall|k: int| 0 <= k < after.actions.len() && (#[trigger] after.actions[k]
            is RunChange) implies exists|j: int|
            0 <= j < k && after.actions[j] == ActionView::SendInit(RowView::EndOfQuery) by {
            if k < before.actions.len() {
                assert(before.actions[k] is RunChange);
                let j = choose|j: int|
                    0 <= j < k && before.actions[j] == ActionView::SendInit(RowView::EndOfQuery);
                assert(after.actions[j] == before.actions[j]);
            } else {
                assert(before.phase == Phase::Live);
                let j = choose|j: int|
                    0 <= j < before.actions.len() && before.actions[j] == ActionView::SendInit(
                        RowView::EndOfQuery,
                    );
                assert(after.actions[j] == before.actions[j]);
            }
        }
        if after.phase == Phase::Live || after.phase == Phase::Busy {
            if before.phase == Phase::Closing {
                // The end of the snapshot was the last message sent.
                lemma_closing_sent_end(script, events, (n - 1) as nat);
                let j = choose|j: int|
                    0 <= j < before.actions.len() && before.actions[j] == ActionView::SendInit(
                        RowView::EndOfQuery,
                    );
                assert(after.actions[j] == before.actions[j]);
            } else {
                let j = choose|j: int|
                    0 <= j < before.actions.len() && before.actions[j] == ActionView::SendInit(
                        RowView::EndOfQuery,
                    );
                assert(after.actions[j] == before.actions[j]);
            }
        }
        match next.1 {
            ActionView::SendInit(message) => {
                assert(messages == old_messages.push(message));
                assert forall|i: int| 0 <= i < messages.len() - 1 implies (#[trigger] messages[i]
                    is Columns) || messages[i] is Row by {
                    assert(messages[i] == old_messages[i]);
                }
                assert forall|i: int| 0 < i < messages.len() implies !(#[trigger] messages[i]
                    is Columns) by {
                    if i < old_messages.len() {
                        assert(messages[i] == old_messages[i]);
                    }
                }
                if old_messages.len() > 0 {
                    assert(messages[0] == old_messages[0]);
                }
            },
            _ => {},
        }
    }
}

/// A task in phase `Closing` was just told to send the end of the snapshot.
proof fn lemma_closing_sent_end(script: Script, events: Seq<EventView>, n: nat)
    requires
        n <= events.len(),
        run(script, events, n).phase == Phase::Closing,
    ensures
        snapshot_ended(run(script, events, n).actions),
{
    let r = run(script, events, n);
    assert(n > 0);
    assert(r.actions[r.actions.len() - 1] == ActionView::SendInit(RowView::EndOfQuery));
}

/// The protocol of the snapshot. Whatever a task reports, in whatever
/// order: of the messages that it is told to send to the subscriber who
/// asked for the snapshot, the first is the column names and no later one
/// is; only rows stand between the column names and the last message, so
/// that the end of the snapshot, or an error, is the last; and the task is
/// told to probe a row only after it was told to send the end of the
/// snapshot.
pub proof fn law_snapshot_protocol(script: Script, events: Seq<EventView>)
    ensures
        snapshot_shaped(script, init_messages(run(script, events, events.len()).actions)),
        probes_follow_snapshot(run(script, events, events.len()).actions),
{
    lemma_protocol_kept(script, events, events.len());
}

} // verus!
