//! What can go wrong while a matcher is built or fed.

use vstd::prelude::*;

verus! {

/// An expression form that the analyser refuses.
#[derive(Debug)]
pub enum Unsupported {
    /// `lhs IN table`, with the table's name.
    InTable(String),
    /// A column named without its table.
    Name(String),
}

/// `Unsupported` with its strings as views.
pub ghost enum UnsupportedView {
    InTable(Seq<char>),
    Name(Seq<char>),
}

/// The errors of the matcher.
#[derive(Debug)]
pub enum MatcherError {
    /// The statement could not be tokenized or parsed; holds the parser's message.
    Lexer(String),
    StatementRequired,
    UnsupportedStatement,
    TableRequired,
    /// The database refused an operation; holds the engine's message.
    Sqlite(String),
    TableNotFound(String),
    NoPrimaryKey(String),
    AggPrimaryKeyMissing(String, String),
    JoinOnExprUnsupported { table: String, expr: Unsupported },
    UnsupportedExpr { expr: Unsupported },
    TableStarNotFound { tbl_name: String },
    MissingPrimaryKeys,
    ChangeQueueClosedOrFull,
    ChangeReceiverClosed,
}

/// `MatcherError` with its strings as views.
pub ghost enum ErrorView {
    Lexer(Seq<char>),
    StatementRequired,
    UnsupportedStatement,
    TableRequired,
    Sqlite(Seq<char>),
    TableNotFound(Seq<char>),
    NoPrimaryKey(Seq<char>),
    AggPrimaryKeyMissing(Seq<char>, Seq<char>),
    JoinOnExprUnsupported { table: Seq<char>, expr: UnsupportedView },
    UnsupportedExpr { expr: UnsupportedView },
    TableStarNotFound { tbl_name: Seq<char> },
    MissingPrimaryKeys,
    ChangeQueueClosedOrFull,
    ChangeReceiverClosed,
}

impl View for Unsupported {
    type V = UnsupportedView;

    open spec fn view(&self) -> UnsupportedView {
        match self {
            Unsupported::InTable(t) => UnsupportedView::InTable(t@),
            Unsupported::Name(n) => UnsupportedView::Name(n@),
        }
    }
}

impl View for MatcherError {
    type V = ErrorView;

    open spec fn view(&self) -> ErrorView {
        match self {
            MatcherError::Lexer(m) => ErrorView::Lexer(m@),
            MatcherError::StatementRequired => ErrorView::StatementRequired,
            MatcherError::UnsupportedStatement => ErrorView::UnsupportedStatement,
            MatcherError::TableRequired => ErrorView::TableRequired,
            MatcherError::Sqlite(m) => ErrorView::Sqlite(m@),
            MatcherError::TableNotFound(t) => ErrorView::TableNotFound(t@),
            MatcherError::NoPrimaryKey(t) => ErrorView::NoPrimaryKey(t@),
            MatcherError::AggPrimaryKeyMissing(t, c) => ErrorView::AggPrimaryKeyMissing(t@, c@),
            MatcherError::JoinOnExprUnsupported { table, expr } => ErrorView::JoinOnExprUnsupported {
                table: table@,
                expr: expr@,
            },
            MatcherError::UnsupportedExpr { expr } => ErrorView::UnsupportedExpr { expr: expr@ },
            MatcherError::TableStarNotFound { tbl_name } => ErrorView::TableStarNotFound {
                tbl_name: tbl_name@,
            },
            MatcherError::MissingPrimaryKeys => ErrorView::MissingPrimaryKeys,
            MatcherError::ChangeQueueClosedOrFull => ErrorView::ChangeQueueClosedOrFull,
            MatcherError::ChangeReceiverClosed => ErrorView::ChangeReceiverClosed,
        }
    }
}

/// How an unsupported expression is named in a message.
pub open spec fn describe_spec(u: UnsupportedView) -> Seq<char> {
    match u {
        UnsupportedView::InTable(t) => "IN "@ + t,
        UnsupportedView::Name(n) => n,
    }
}

/// The text of an error.
pub open spec fn message_spec(e: ErrorView) -> Seq<char> {
    match e {
        ErrorView::Lexer(m) => m,
        ErrorView::StatementRequired => "one statement is required for matching"@,
        ErrorView::UnsupportedStatement => "unsupported statement"@,
        ErrorView::TableRequired => "at least 1 table is required in FROM / JOIN clause"@,
        ErrorView::Sqlite(m) => m,
        ErrorView::TableNotFound(t) => "table not found in schema: "@ + t,
        ErrorView::NoPrimaryKey(t) => "no primary key for table: "@ + t,
        ErrorView::AggPrimaryKeyMissing(t, c) => "aggregate missing primary key "@ + t + "."@ + c,
        ErrorView::JoinOnExprUnsupported { table, expr } =>
            "JOIN .. ON expression is not supported for join on table '"@ + table + "': "@
                + describe_spec(expr),
        ErrorView::UnsupportedExpr { expr } => "expression is not supported: "@ + describe_spec(
            expr,
        ),
        ErrorView::TableStarNotFound { tbl_name } => "could not find table for "@ + tbl_name
            + ".* in corrosion's schema"@,
        ErrorView::MissingPrimaryKeys => "missing primary keys, this shouldn't happen"@,
        ErrorView::ChangeQueueClosedOrFull => "change queue has been closed or is full"@,
        ErrorView::ChangeReceiverClosed => "change receiver is closed"@,
    }
}

impl Unsupported {
    /// How the expression is named in a message.
    pub fn describe(&self) -> (s: String)
        ensures
            s@ == describe_spec(self@),
    {
        match self {
            Unsupported::InTable(t) => {
                let mut s = "IN ".to_owned();
                s.append(t.as_str());
                s
            },
            Unsupported::Name(n) => n.clone(),
        }
    }
}

impl MatcherError {
    /// The text of the error.
    pub fn message(&self) -> (s: String)
        ensures
            s@ == message_spec(self@),
    {
        match self {
            MatcherError::Lexer(m) => m.clone(),
            MatcherError::StatementRequired => "one statement is required for matching".to_owned(),
            MatcherError::UnsupportedStatement => "unsupported statement".to_owned(),
            MatcherError::TableRequired => "at least 1 table is required in FROM / JOIN clause".to_owned(),
            MatcherError::Sqlite(m) => m.clone(),
            MatcherError::TableNotFound(t) => {
                let mut s = "table not found in schema: ".to_owned();
                s.append(t.as_str());
                s
            },
            MatcherError::NoPrimaryKey(t) => {
                let mut s = "no primary key for table: ".to_owned();
                s.append(t.as_str());
                s
            },
            MatcherError::AggPrimaryKeyMissing(t, c) => {
                let mut s = "aggregate missing primary key ".to_owned();
                s.append(t.as_str());
                s.append(".");
                s.append(c.as_str());
                s
            },
            MatcherError::JoinOnExprUnsupported { table, expr } => {
                let mut s = "JOIN .. ON expression is not supported for join on table '".to_owned();
                s.append(table.as_str());
                s.append("': ");
                let d = expr.describe();
                s.append(d.as_str());
                s
            },
            MatcherError::UnsupportedExpr { expr } => {
                let mut s = "expression is not supported: ".to_owned();
                let d = expr.describe();
                s.append(d.as_str());
                s
            },
            MatcherError::TableStarNotFound { tbl_name } => {
                let mut s = "could not find table for ".to_owned();
                s.append(tbl_name.as_str());
                s.append(".* in corrosion's schema");
                s
            },
            MatcherError::MissingPrimaryKeys => "missing primary keys, this shouldn't happen".to_owned(),
            MatcherError::ChangeQueueClosedOrFull => "change queue has been closed or is full".to_owned(),
            MatcherError::ChangeReceiverClosed => "change receiver is closed".to_owned(),
        }
    }
}

} // verus!
