//! How a query proceeds: what it asks to be done, what came of it, and its answer.
use crate::access::{DatabaseBackend, Permission, PermissionView, Scope};
use crate::error::{labelled, NodegetError, NodegetErrorView};
use crate::json::{is_compact, json_document, read_document};
use crate::rpc::agent::query_dynamic_summary_buckets_multi::{
    BucketsStatement, BucketsStatementView,
};
use crate::rpc::agent::query_dynamic_summary_history_multi::{HistorySelect, HistorySelectView};
use crate::rpc::task::query_latest_per_node::{LatestSelect, LatestSelectView};
use vstd::prelude::*;
use vstd::string::*;

verus! {

/// What a query wants done next.
pub enum QueryAction {
    /// Parse the caller's token.
    ParseToken,
    /// Ask whether the token has the permission in all of the scopes.
    CheckPermission { scopes: Vec<Scope>, permission: Permission },
    /// Open the database.
    OpenDatabase,
    /// Look up the number of an agent.
    LookUpAgent(u128),
    /// Run a statement that yields at most one row.
    RunBuckets(BucketsStatement),
    /// Select summaries; what comes of it is the answer.
    RunHistory(HistorySelect),
    /// Select tasks, as a stream of rows.
    RunLatest(LatestSelect),
    /// Read the next row of the stream.
    NextRow,
    /// Answer with a JSON document.
    Answer(String),
    /// Answer with a failure.
    Fail(NodegetError),
    /// Answer with the failure that was reported.
    PassOn,
    /// The event does not belong here; nothing is to be done.
    Ignore,
}

/// What came of an action.
pub enum QueryEvent {
    TokenParsed,
    TokenRefused(String),
    PermissionChecked(bool),
    DatabaseOpened(DatabaseBackend),
    AgentLookedUp(Option<i16>),
    StreamOpened,
    /// A row, or the end of the rows.
    RowRead(Option<serde_json::Value>),
    /// The database failed.
    DatabaseFailed(String),
    /// The permission could not be checked, or the database could not be opened.
    Unavailable,
}

pub enum QueryActionView {
    ParseToken,
    CheckPermission { scopes: Seq<Scope>, permission: PermissionView },
    OpenDatabase,
    LookUpAgent(u128),
    RunBuckets(BucketsStatementView),
    RunHistory(HistorySelectView),
    RunLatest(LatestSelectView),
    NextRow,
    Answer(Seq<char>),
    Fail(NodegetErrorView),
    PassOn,
    Ignore,
}

pub enum QueryEventView {
    TokenParsed,
    TokenRefused(Seq<char>),
    PermissionChecked(bool),
    DatabaseOpened(DatabaseBackend),
    AgentLookedUp(Option<i16>),
    StreamOpened,
    RowRead(Option<serde_json::Value>),
    DatabaseFailed(Seq<char>),
    Unavailable,
}

impl View for QueryAction {
    type V = QueryActionView;

    open spec fn view(&self) -> QueryActionView {
        match self {
            QueryAction::ParseToken => QueryActionView::ParseToken,
            QueryAction::CheckPermission { scopes, permission } => QueryActionView::CheckPermission {
                scopes: scopes@,
                permission: permission@,
            },
            QueryAction::OpenDatabase => QueryActionView::OpenDatabase,
            QueryAction::LookUpAgent(uuid) => QueryActionView::LookUpAgent(*uuid),
            QueryAction::RunBuckets(statement) => QueryActionView::RunBuckets(statement@),
            QueryAction::RunHistory(select) => QueryActionView::RunHistory(select@),
            QueryAction::RunLatest(select) => QueryActionView::RunLatest(select@),
            QueryAction::NextRow => QueryActionView::NextRow,
            QueryAction::Answer(text) => QueryActionView::Answer(text@),
            QueryAction::Fail(error) => QueryActionView::Fail(error@),
            QueryAction::PassOn => QueryActionView::PassOn,
            QueryAction::Ignore => QueryActionView::Ignore,
        }
    }
}

impl View for QueryEvent {
    type V = QueryEventView;

    open spec fn view(&self) -> QueryEventView {
        match self {
            QueryEvent::TokenParsed => QueryEventView::TokenParsed,
            QueryEvent::TokenRefused(text) => QueryEventView::TokenRefused(text@),
            QueryEvent::PermissionChecked(allowed) => QueryEventView::PermissionChecked(*allowed),
            QueryEvent::DatabaseOpened(backend) => QueryEventView::DatabaseOpened(*backend),
            QueryEvent::AgentLookedUp(id) => QueryEventView::AgentLookedUp(*id),
            QueryEvent::StreamOpened => QueryEventView::StreamOpened,
            QueryEvent::RowRead(row) => QueryEventView::RowRead(*row),
            QueryEvent::DatabaseFailed(text) => QueryEventView::DatabaseFailed(text@),
            QueryEvent::Unavailable => QueryEventView::Unavailable,
        }
    }
}

impl QueryActionView {
    /// Whether the action hands anything to the database.
    pub open spec fn reads_database(self) -> bool {
        self is RunBuckets || self is RunHistory || self is RunLatest || self is NextRow
    }

    /// Whether the action ends the query.
    pub open spec fn ends(self) -> bool {
        self is Answer || self is Fail || self is PassOn || self is RunHistory
    }
}

/// What a token that cannot be parsed is answered.
pub open spec fn token_failure(reason: Seq<char>) -> NodegetErrorView {
    NodegetErrorView::ParseError("Failed to parse token: "@ + reason)
}

/// What a JSON document that was checked, or could not be read, is answered.
pub open spec fn document_answer(read: Result<Seq<char>, Seq<char>>) -> QueryActionView {
    match read {
        Ok(text) => QueryActionView::Answer(text),
        Err(text) => QueryActionView::Fail(
            NodegetErrorView::SerializationError("RawValue error: "@ + text),
        ),
    }
}

/// What a value that was written, or could not be written, is answered.
pub open spec fn written_answer(written: Result<Seq<char>, Seq<char>>) -> QueryActionView {
    match written {
        Ok(text) => document_answer(json_document(text)),
        Err(text) => QueryActionView::Fail(serialization_failure(text)),
    }
}

/// The failure to write a value as JSON.
pub open spec fn serialization_failure(reason: Seq<char>) -> NodegetErrorView {
    NodegetErrorView::SerializationError("Serialization failed: "@ + reason)
}

/// The outcome of a call with its texts as sequences of characters.
pub open spec fn outcome_view(outcome: Result<String, String>) -> Result<Seq<char>, Seq<char>> {
    match outcome {
        Ok(text) => Ok(text@),
        Err(text) => Err(text@),
    }
}

/// Answers with a JSON document that was checked, or with the failure to read it.
pub fn answer_document(read: Result<String, String>) -> (action: QueryAction)
    ensures
        action@ == document_answer(outcome_view(read)),
{
    match read {
        Ok(text) => QueryAction::Answer(text),
        Err(text) => QueryAction::Fail(
            NodegetError::SerializationError(labelled("RawValue error: ", text.as_str())),
        ),
    }
}

/// Answers with a value that was written as JSON, or with the failure to write it. What was written
/// is answered as it is.
pub fn answer_written(written: Result<String, String>) -> (action: QueryAction)
    ensures
        action@ == written_answer(outcome_view(written)),
        written is Ok && is_compact(written->Ok_0@) ==> action@ == QueryActionView::Answer(
            written->Ok_0@,
        ),
{
    match written {
        Ok(text) => answer_document(read_document(text)),
        Err(text) => QueryAction::Fail(
            NodegetError::SerializationError(labelled("Serialization failed: ", text.as_str())),
        ),
    }
}

/// A document that could be read is answered as it was read, and every failure names its reason.
pub proof fn law_answers_of_documents(text: Seq<char>)
    ensures
        document_answer(Ok(text)) == QueryActionView::Answer(text),
        document_answer(Err(text)) == QueryActionView::Fail(
            NodegetErrorView::SerializationError("RawValue error: "@ + text),
        ),
        written_answer(Ok(text)) == document_answer(json_document(text)),
        written_answer(Err(text)) == QueryActionView::Fail(
            NodegetErrorView::SerializationError("Serialization failed: "@ + text),
        ),
        token_failure(text) == NodegetErrorView::ParseError("Failed to parse token: "@ + text),
{
}

/// What came of an action is taken as it was reported.
pub proof fn law_events_are_taken_as_reported(event: QueryEvent)
    ensures
        event matches QueryEvent::TokenRefused(text) ==> event@ == QueryEventView::TokenRefused(
            text@,
        ),
        event matches QueryEvent::PermissionChecked(allowed) ==> event@
            == QueryEventView::PermissionChecked(allowed),
        event matches QueryEvent::DatabaseOpened(backend) ==> event@
            == QueryEventView::DatabaseOpened(backend),
        event matches QueryEvent::AgentLookedUp(id) ==> event@ == QueryEventView::AgentLookedUp(id),
        event matches QueryEvent::RowRead(row) ==> event@ == QueryEventView::RowRead(row),
        event matches QueryEvent::DatabaseFailed(text) ==> event@ == QueryEventView::DatabaseFailed(
            text@,
        ),
{
}

/// What is to be done is said in full.
pub proof fn law_actions_are_said_in_full(action: QueryAction)
    ensures
        action matches QueryAction::CheckPermission { scopes, permission } ==> action@
            == (QueryActionView::CheckPermission { scopes: scopes@, permission: permission@ }),
        action matches QueryAction::LookUpAgent(uuid) ==> action@ == QueryActionView::LookUpAgent(
            uuid,
        ),
        action matches QueryAction::RunBuckets(statement) ==> action@
            == QueryActionView::RunBuckets(statement@),
        action matches QueryAction::RunHistory(select) ==> action@ == QueryActionView::RunHistory(
            select@,
        ),
        action matches QueryAction::RunLatest(select) ==> action@ == QueryActionView::RunLatest(
            select@,
        ),
        action matches QueryAction::Answer(text) ==> action@ == QueryActionView::Answer(text@),
        action matches QueryAction::Fail(error) ==> action@ == QueryActionView::Fail(error@),
{
}

/// The outcome of a call is taken with its own text.
pub proof fn law_outcomes_keep_their_texts(outcome: Result<String, String>)
    ensures
        outcome matches Ok(text) ==> outcome_view(outcome) == Ok::<Seq<char>, Seq<char>>(text@),
        outcome matches Err(text) ==> outcome_view(outcome) == Err::<Seq<char>, Seq<char>>(text@),
{
}

} // verus!
