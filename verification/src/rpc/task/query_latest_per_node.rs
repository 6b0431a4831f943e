//! The latest task of one type for each agent and each schedule, from the request to the answer.
use crate::access::{DatabaseBackend, Permission, PermissionView, Scope};
use crate::error::{labelled, NodegetError, NodegetErrorView};
use crate::json::{
    all_written, array_text, is_compact, is_written, json_document, json_written, read_document,
    utf8_text, write_bytes,
};
use crate::rpc::flow::{
    answer_document, document_answer, serialization_failure, token_failure, QueryAction,
    QueryActionView, QueryEvent, QueryEventView,
};
use crate::text::joined;
use vstd::prelude::*;
use vstd::string::*;
use vstd::utf8::{
    decode_utf8, decode_utf8_encode_utf8, encode_utf8, encode_utf8_decode_utf8,
    encode_utf8_valid_utf8, is_ascii_chars_encode_utf8, valid_utf8,
};

verus! {

const OPEN_BRACKET: u8 = 0x5b;

const COMMA: u8 = 0x2c;

const CLOSE_BRACKET: u8 = 0x5d;

/// A column of the tasks.
#[derive(Clone, Copy, Debug, PartialEq, Eq, Structural)]
pub enum TaskColumn {
    Id,
    Uuid,
    CronSource,
    Timestamp,
    Success,
    ErrorMessage,
    TaskEventType,
    TaskEventResult,
}

/// Which tasks are of the type that is asked for.
pub enum TypeCondition {
    /// The type of the task, as a JSON object, has this key.
    HasKey(String),
    /// The type of the task, as a text, is like this pattern.
    IsLike { pattern: String, escape: char },
}

pub enum TypeConditionView {
    HasKey(Seq<char>),
    IsLike { pattern: Seq<char>, escape: char },
}

impl View for TypeCondition {
    type V = TypeConditionView;

    open spec fn view(&self) -> TypeConditionView {
        match self {
            TypeCondition::HasKey(key) => TypeConditionView::HasKey(key@),
            TypeCondition::IsLike { pattern, escape } => TypeConditionView::IsLike {
                pattern: pattern@,
                escape: *escape,
            },
        }
    }
}

/// Which task of a group is selected.
#[derive(Clone, Copy, Debug, PartialEq, Eq, Structural)]
pub enum RowPick {
    /// The one with the greatest value of the column.
    Greatest(TaskColumn),
}

/// Which tasks are selected, and what of them: of those that meet the condition, one of each group.
pub struct LatestSelect {
    pub columns: Vec<TaskColumn>,
    /// The tasks that agree in these columns are a group.
    pub group_by: Vec<TaskColumn>,
    pub pick: RowPick,
    pub condition: TypeCondition,
    /// The changes that each row goes through before it is answered, in order.
    pub edits: Vec<RowEdit>,
}

pub struct LatestSelectView {
    pub columns: Seq<TaskColumn>,
    pub group_by: Seq<TaskColumn>,
    pub pick: RowPick,
    pub condition: TypeConditionView,
    pub edits: Seq<RowEdit>,
}

impl View for LatestSelect {
    type V = LatestSelectView;

    open spec fn view(&self) -> LatestSelectView {
        LatestSelectView {
            columns: self.columns@,
            group_by: self.group_by@,
            pick: self.pick,
            condition: self.condition@,
            edits: self.edits@,
        }
    }
}

/// A change that a row goes through before it is answered, if it is an object.
#[derive(Clone, Copy, Debug)]
pub enum RowEdit {
    /// A member gets another name.
    Rename { from: &'static str, to: &'static str },
    /// A member that holds JSON as a text gets the value of that text.
    ParseJson { member: &'static str },
}

/// The changes that a row goes through, in order.
pub open spec fn row_edits_of() -> Seq<RowEdit> {
    seq![
        RowEdit::Rename { from: "id", to: "task_id" },
        RowEdit::ParseJson { member: "task_event_type" },
        RowEdit::ParseJson { member: "task_event_result" },
    ]
}

/// The changes that a row goes through, in order.
pub fn row_edits() -> (edits: Vec<RowEdit>)
    ensures
        edits@ == row_edits_of(),
{
    vec![
        RowEdit::Rename { from: "id", to: "task_id" },
        RowEdit::ParseJson { member: "task_event_type" },
        RowEdit::ParseJson { member: "task_event_result" },
    ]
}

/// A character of a pattern that stands for itself.
pub open spec fn escaped_char(c: char) -> Seq<char> {
    if c == '%' || c == '_' {
        seq!['\\', c]
    } else {
        seq![c]
    }
}

/// The pattern with its wildcards escaped.
pub open spec fn escaped(pattern: Seq<char>) -> Seq<char>
    decreases pattern.len(),
{
    if pattern.len() == 0 {
        Seq::empty()
    } else {
        escaped(pattern.drop_last()) + escaped_char(pattern.last())
    }
}

/// Puts a backslash before every wildcard of a pattern.
pub fn escape_like_pattern(pattern: &str) -> (r: String)
    ensures
        r@ == escaped(pattern@),
{
    let mut r = String::new();
    let len: usize = pattern.unicode_len();
    for i in 0..len
        invariant
            len == pattern@.len(),
            r@ == escaped(pattern@.take(i as int)),
    {
        let c: char = pattern.get_char(i);
        if c == '%' || c == '_' {
            r.push('\\');
        }
        r.push(c);
        assert(pattern@.take(i + 1).drop_last() =~= pattern@.take(i as int));
        assert(r@ =~= escaped(pattern@.take(i as int)) + escaped_char(c));
    }
    assert(pattern@.take(len as int) =~= pattern@);
    r
}

/// The pattern of a text that holds the type as the key of an object.
pub open spec fn type_pattern(task_type: Seq<char>) -> Seq<char> {
    "%\""@ + escaped(task_type) + "\":%"@
}

/// Which tasks are of the type, as the database is asked.
pub open spec fn type_condition_of(
    backend: DatabaseBackend,
    task_type: Seq<char>,
) -> TypeConditionView {
    if backend == DatabaseBackend::Postgres {
        TypeConditionView::HasKey(task_type)
    } else {
        TypeConditionView::IsLike { pattern: type_pattern(task_type), escape: '\\' }
    }
}

/// Which tasks are of the type, as the database is asked.
pub fn type_condition(backend: DatabaseBackend, task_type: &str) -> (condition: TypeCondition)
    ensures
        condition@ == type_condition_of(backend, task_type@),
{
    match backend {
        DatabaseBackend::Postgres => TypeCondition::HasKey(task_type.to_owned()),
        _ => {
            let pattern = labelled("%\"", escape_like_pattern(task_type).as_str()).concat("\":%");
            TypeCondition::IsLike { pattern, escape: '\\' }
        },
    }
}

/// The selection of a query.
pub open spec fn latest_select(backend: DatabaseBackend, task_type: Seq<char>) -> LatestSelectView {
    LatestSelectView {
        columns: seq![
            TaskColumn::Id,
            TaskColumn::Uuid,
            TaskColumn::CronSource,
            TaskColumn::Timestamp,
            TaskColumn::Success,
            TaskColumn::ErrorMessage,
            TaskColumn::TaskEventType,
            TaskColumn::TaskEventResult,
        ],
        group_by: seq![TaskColumn::Uuid, TaskColumn::CronSource],
        pick: RowPick::Greatest(TaskColumn::Id),
        condition: type_condition_of(backend, task_type),
        edits: row_edits_of(),
    }
}

/// The selection of a query.
pub fn plan_latest(backend: DatabaseBackend, task_type: &str) -> (select: LatestSelect)
    ensures
        select@ == latest_select(backend, task_type@),
{
    let columns: Vec<TaskColumn> = vec![
        TaskColumn::Id,
        TaskColumn::Uuid,
        TaskColumn::CronSource,
        TaskColumn::Timestamp,
        TaskColumn::Success,
        TaskColumn::ErrorMessage,
        TaskColumn::TaskEventType,
        TaskColumn::TaskEventResult,
    ];
    let group_by: Vec<TaskColumn> = vec![TaskColumn::Uuid, TaskColumn::CronSource];
    let condition = type_condition(backend, task_type);
    let pick = RowPick::Greatest(TaskColumn::Id);
    let select = LatestSelect { columns, group_by, pick, condition, edits: row_edits() };
    assert(select@.columns =~= latest_select(backend, task_type@).columns);
    assert(select@.group_by =~= latest_select(backend, task_type@).group_by);
    select
}

/// What a query waits for.
#[derive(Clone, Copy, Debug, PartialEq, Eq, Structural)]
pub enum LatestQueryPhase {
    Token,
    Permission,
    Database,
    Stream,
    Rows,
    Closed,
}

/// A query for the latest tasks. The rows are written behind each other as they come.
pub struct LatestQuery {
    task_type: String,
    phase: LatestQueryPhase,
    first: bool,
    output: Vec<u8>,
}

pub struct LatestQueryView {
    pub task_type: Seq<char>,
    pub phase: LatestQueryPhase,
    /// Whether no row was written yet.
    pub first: bool,
    /// What was written so far.
    pub output: Seq<char>,
}

impl View for LatestQuery {
    type V = LatestQueryView;

    closed spec fn view(&self) -> LatestQueryView {
        LatestQueryView {
            task_type: self.task_type@,
            phase: self.phase,
            first: self.first,
            output: decode_utf8(self.output@),
        }
    }
}

/// What a token without the permission is answered.
pub open spec fn task_read_denied() -> NodegetErrorView {
    NodegetErrorView::PermissionDenied(
        "Permission Denied: Insufficient permissions to read task data"@,
    )
}

impl LatestQueryView {
    /// The query with another phase.
    pub open spec fn at(self, phase: LatestQueryPhase) -> LatestQueryView {
        LatestQueryView { phase, ..self }
    }

    /// The query closed, with nothing written, and its last action.
    pub open spec fn closed_with(self, action: QueryActionView) -> (
        LatestQueryView,
        QueryActionView,
    ) {
        (
            LatestQueryView {
                task_type: self.task_type,
                phase: LatestQueryPhase::Closed,
                first: true,
                output: Seq::empty(),
            },
            action,
        )
    }

    /// The query at its start, and its first action.
    pub open spec fn begun(task_type: Seq<char>) -> (LatestQueryView, QueryActionView) {
        (
            LatestQueryView {
                task_type,
                phase: LatestQueryPhase::Token,
                first: true,
                output: Seq::empty(),
            },
            QueryActionView::ParseToken,
        )
    }

    /// The query after one more row.
    pub open spec fn with_row(self, text: Seq<char>) -> LatestQueryView {
        LatestQueryView {
            first: false,
            output: self.output + (if self.first {
                Seq::empty()
            } else {
                seq![',']
            }) + text,
            ..self
        }
    }

    /// The query after an event, and the action that follows. An event that the phase does not wait
    /// for changes nothing.
    pub open spec fn after(self, event: QueryEventView) -> (LatestQueryView, QueryActionView) {
        match (self.phase, event) {
            (LatestQueryPhase::Token, QueryEventView::TokenRefused(reason)) => self.closed_with(
                QueryActionView::Fail(token_failure(reason)),
            ),
            (LatestQueryPhase::Token, QueryEventView::TokenParsed) => (
                self.at(LatestQueryPhase::Permission),
                QueryActionView::CheckPermission {
                    scopes: seq![Scope::Global],
                    permission: PermissionView::TaskRead(self.task_type),
                },
            ),
            (LatestQueryPhase::Permission, QueryEventView::PermissionChecked(allowed)) => if allowed {
                (self.at(LatestQueryPhase::Database), QueryActionView::OpenDatabase)
            } else {
                self.closed_with(QueryActionView::Fail(task_read_denied()))
            },
            (LatestQueryPhase::Permission, QueryEventView::Unavailable) => self.closed_with(
                QueryActionView::PassOn,
            ),
            (LatestQueryPhase::Database, QueryEventView::Unavailable) => self.closed_with(
                QueryActionView::PassOn,
            ),
            (LatestQueryPhase::Database, QueryEventView::DatabaseOpened(backend)) => (
                self.at(LatestQueryPhase::Stream),
                QueryActionView::RunLatest(latest_select(backend, self.task_type)),
            ),
            (LatestQueryPhase::Stream, QueryEventView::DatabaseFailed(reason)) => self.closed_with(
                QueryActionView::Fail(
                    NodegetErrorView::DatabaseError("Database query error: "@ + reason),
                ),
            ),
            (LatestQueryPhase::Stream, QueryEventView::StreamOpened) => (
                LatestQueryView { phase: LatestQueryPhase::Rows, output: seq!['['], ..self },
                QueryActionView::NextRow,
            ),
            (LatestQueryPhase::Rows, QueryEventView::DatabaseFailed(reason)) => self.closed_with(
                QueryActionView::Fail(
                    NodegetErrorView::DatabaseError("Stream read error: "@ + reason),
                ),
            ),
            (LatestQueryPhase::Rows, QueryEventView::RowRead(Some(row))) => match json_written(row) {
                Ok(text) => (self.with_row(text), QueryActionView::NextRow),
                Err(reason) => self.closed_with(
                    QueryActionView::Fail(serialization_failure(reason)),
                ),
            },
            (LatestQueryPhase::Rows, QueryEventView::RowRead(None)) => self.closed_with(
                document_answer(json_document(self.output + seq![']'])),
            ),
            _ => (self, QueryActionView::Ignore),
        }
    }

    /// Whether the rows with these texts are what was written so far: an array that is still open.
    pub open spec fn holds_rows(self, texts: Seq<Seq<char>>) -> bool {
        &&& all_written(texts)
        &&& self.first == (texts.len() == 0)
        &&& self.output == seq!['['] + joined(texts, seq![','])
    }

    /// Nothing is written before the rows come, and then only rows.
    pub open spec fn wf(self) -> bool {
        match self.phase {
            LatestQueryPhase::Rows => exists|texts: Seq<Seq<char>>| self.holds_rows(texts),
            _ => self.output.len() == 0 && self.first,
        }
    }
}

proof fn lemma_encode_in_parts(a: Seq<char>, b: Seq<char>)
    ensures
        encode_utf8(a + b) == encode_utf8(a) + encode_utf8(b),
    decreases a.len(),
{
    if a.len() == 0 {
        assert(a + b =~= b);
        assert(encode_utf8(a) + encode_utf8(b) =~= encode_utf8(b));
    } else {
        lemma_encode_in_parts(a.drop_first(), b);
        assert((a + b).drop_first() =~= a.drop_first() + b);
        assert((a + b)[0] == a[0]);
        assert(encode_utf8(a + b) =~= encode_utf8(a) + encode_utf8(b));
    }
}

/// Bytes with the encoding of `text` behind them decode to what they decoded to with `text` behind
/// it.
proof fn lemma_decode_with_text_behind(bytes: Seq<u8>, text: Seq<char>)
    requires
        valid_utf8(bytes),
    ensures
        valid_utf8(bytes + encode_utf8(text)),
        decode_utf8(bytes + encode_utf8(text)) == decode_utf8(bytes) + text,
{
    decode_utf8_encode_utf8(bytes);
    lemma_encode_in_parts(decode_utf8(bytes), text);
    encode_utf8_valid_utf8(decode_utf8(bytes) + text);
    encode_utf8_decode_utf8(decode_utf8(bytes) + text);
}

/// Writes a character of one byte behind the bytes.
fn push_ascii(output: &mut Vec<u8>, byte: u8)
    requires
        valid_utf8(old(output)@),
        byte < 128,
    ensures
        valid_utf8(final(output)@),
        decode_utf8(final(output)@) == decode_utf8(old(output)@).push(byte as char),
{
    let ghost before = output@;
    output.push(byte);
    proof {
        let text = seq![byte as char];
        is_ascii_chars_encode_utf8(text);
        assert(encode_utf8(text) =~= seq![byte]);
        assert(output@ =~= before + encode_utf8(text));
        lemma_decode_with_text_behind(before, text);
        assert(decode_utf8(before) + text =~= decode_utf8(before).push(byte as char));
    }
}

/// A row that is written keeps what was written an array of rows.
proof fn lemma_one_more_row(query: LatestQueryView, row: serde_json::Value)
    requires
        query.phase == LatestQueryPhase::Rows,
        query.wf(),
        json_written(row) is Ok,
    ensures
        query.with_row(json_written(row)->Ok_0).wf(),
{
    let text = json_written(row)->Ok_0;
    assert(json_written(row) == Ok::<Seq<char>, Seq<char>>(text));
    assert(is_written(text));
    let texts = choose|texts: Seq<Seq<char>>| query.holds_rows(texts);
    let more = texts.push(text);
    assert(more.drop_last() =~= texts);
    assert(query.with_row(text).output =~= seq!['['] + joined(more, seq![',']));
    assert(query.with_row(text).holds_rows(more));
}

impl LatestQuery {
    /// Whether the query is in a state that `begin` and `step` can bring about.
    pub closed spec fn wf(&self) -> bool {
        valid_utf8(self.output@) && self@.wf()
    }

    /// Starts a query.
    pub fn begin(task_type: String) -> (r: (LatestQuery, QueryAction))
        ensures
            r.0.wf(),
            r.0@.wf(),
            (r.0@, r.1@) == LatestQueryView::begun(task_type@),
    {
        let query = LatestQuery {
            task_type,
            phase: LatestQueryPhase::Token,
            first: true,
            output: Vec::new(),
        };
        assert(query@.output =~= Seq::empty());
        (query, QueryAction::ParseToken)
    }

    /// Closes the query.
    fn close(self, action: QueryAction) -> (r: (LatestQuery, QueryAction))
        ensures
            r.0.wf(),
            (r.0@, r.1@) == self@.closed_with(action@),
    {
        let query = LatestQuery {
            task_type: self.task_type,
            phase: LatestQueryPhase::Closed,
            first: true,
            output: Vec::new(),
        };
        assert(query@.output =~= Seq::empty());
        (query, action)
    }

    /// Takes an event and says what is to be done next. At the end of the rows they are answered as
    /// they were written.
    pub fn step(self, event: QueryEvent) -> (r: (LatestQuery, QueryAction))
        requires
            self.wf(),
        ensures
            r.0.wf(),
            r.0@.wf(),
            (r.0@, r.1@) == self@.after(event@),
            self@.phase == LatestQueryPhase::Rows && event@ == QueryEventView::RowRead(None)
                ==> r.1@ == QueryActionView::Answer(self@.output + seq![']']),
    {
        let mut query = self;
        match (query.phase, event) {
            (LatestQueryPhase::Token, QueryEvent::TokenRefused(reason)) => {
                let error = NodegetError::ParseError(
                    labelled("Failed to parse token: ", reason.as_str()),
                );
                query.close(QueryAction::Fail(error))
            },
            (LatestQueryPhase::Token, QueryEvent::TokenParsed) => {
                query.phase = LatestQueryPhase::Permission;
                let scopes: Vec<Scope> = vec![Scope::Global];
                assert(scopes@ =~= seq![Scope::Global]);
                let permission = Permission::TaskRead(query.task_type.clone());
                (query, QueryAction::CheckPermission { scopes, permission })
            },
            (LatestQueryPhase::Permission, QueryEvent::PermissionChecked(allowed)) => {
                if allowed {
                    query.phase = LatestQueryPhase::Database;
                    (query, QueryAction::OpenDatabase)
                } else {
                    let error = NodegetError::PermissionDenied(
                        "Permission Denied: Insufficient permissions to read task data".to_owned(),
                    );
                    query.close(QueryAction::Fail(error))
                }
            },
            (LatestQueryPhase::Permission, QueryEvent::Unavailable) => query.close(
                QueryAction::PassOn,
            ),
            (LatestQueryPhase::Database, QueryEvent::Unavailable) => query.close(
                QueryAction::PassOn,
            ),
            (LatestQueryPhase::Database, QueryEvent::DatabaseOpened(backend)) => {
                query.phase = LatestQueryPhase::Stream;
                let select = plan_latest(backend, query.task_type.as_str());
                (query, QueryAction::RunLatest(select))
            },
            (LatestQueryPhase::Stream, QueryEvent::DatabaseFailed(reason)) => {
                let error = NodegetError::DatabaseError(
                    labelled("Database query error: ", reason.as_str()),
                );
                query.close(QueryAction::Fail(error))
            },
            (LatestQueryPhase::Stream, QueryEvent::StreamOpened) => {
                query.phase = LatestQueryPhase::Rows;
                push_ascii(&mut query.output, OPEN_BRACKET);
                assert(query@.output =~= seq!['[']);
                assert(query@.holds_rows(Seq::empty())) by {
                    assert(seq!['['] =~= seq!['['] + joined(Seq::empty(), seq![',']));
                }
                (query, QueryAction::NextRow)
            },
            (LatestQueryPhase::Rows, QueryEvent::DatabaseFailed(reason)) => {
                let error = NodegetError::DatabaseError(
                    labelled("Stream read error: ", reason.as_str()),
                );
                query.close(QueryAction::Fail(error))
            },
            (LatestQueryPhase::Rows, QueryEvent::RowRead(Some(row))) => {
                let ghost before = query@;
                if query.first {
                    query.first = false;
                } else {
                    push_ascii(&mut query.output, COMMA);
                }
                let ghost opened = query.output@;
                match write_bytes(&mut query.output, &row) {
                    Ok(()) => {
                        proof {
                            let text = json_written(row)->Ok_0;
                            lemma_decode_with_text_behind(opened, text);
                            assert(query@.output =~= before.with_row(text).output);
                            lemma_one_more_row(before, row);
                        }
                        (query, QueryAction::NextRow)
                    },
                    Err(reason) => {
                        let error = NodegetError::SerializationError(
                            labelled("Serialization failed: ", reason.as_str()),
                        );
                        query.close(QueryAction::Fail(error))
                    },
                }
            },
            (LatestQueryPhase::Rows, QueryEvent::RowRead(None)) => {
                let mut output: Vec<u8> = Vec::new();
                let ghost before = query@.output;
                std::mem::swap(&mut output, &mut query.output);
                push_ascii(&mut output, CLOSE_BRACKET);
                assert(decode_utf8(output@) =~= before + seq![']']);
                assert(is_compact(before + seq![']'])) by {
                    let texts = choose|texts: Seq<Seq<char>>| self@.holds_rows(texts);
                    assert(all_written(texts) && before + seq![']'] == array_text(texts));
                }
                match utf8_text(output) {
                    Ok(text) => query.close(answer_document(read_document(text))),
                    Err(reason) => {
                        let error = NodegetError::SerializationError(
                            labelled("UTF8 conversion error: ", reason.as_str()),
                        );
                        query.close(QueryAction::Fail(error))
                    },
                }
            },
            _ => (query, QueryAction::Ignore),
        }
    }
}

/// Whether a text is like a pattern, as a database compares them: `%` stands for any text, `_` for
/// any character, and every other character, or any character behind the escape character, for the
/// characters that count as the same.
pub open spec fn is_like(
    s: Seq<char>,
    pattern: Seq<char>,
    escape: char,
    same: spec_fn(char, char) -> bool,
) -> bool
    decreases pattern.len(), s.len(),
{
    if pattern.len() == 0 {
        s.len() == 0
    } else if pattern[0] == escape {
        &&& pattern.len() >= 2
        &&& s.len() > 0
        &&& same(pattern[1], s[0])
        &&& is_like(s.drop_first(), pattern.skip(2), escape, same)
    } else if pattern[0] == '%' {
        ||| is_like(s, pattern.drop_first(), escape, same)
        ||| s.len() > 0 && is_like(s.drop_first(), pattern, escape, same)
    } else {
        &&& s.len() > 0
        &&& pattern[0] == '_' || same(pattern[0], s[0])
        &&& is_like(s.drop_first(), pattern.drop_first(), escape, same)
    }
}

/// Whether `part` occurs in `s` with `k` characters before it, up to characters that count as the
/// same.
pub open spec fn occurs_at(
    part: Seq<char>,
    s: Seq<char>,
    k: int,
    same: spec_fn(char, char) -> bool,
) -> bool {
    &&& 0 <= k
    &&& k + part.len() <= s.len()
    &&& forall|i: int| 0 <= i < part.len() ==> same(#[trigger] part[i], s[k + i])
}

/// A type as the key of an object.
pub open spec fn type_as_key(task_type: Seq<char>) -> Seq<char> {
    seq!['"'] + task_type + seq!['"', ':']
}

proof fn lemma_escaped_in_parts(a: Seq<char>, b: Seq<char>)
    ensures
        escaped(a + b) == escaped(a) + escaped(b),
    decreases b.len(),
{
    if b.len() == 0 {
        assert(a + b =~= a);
        assert(escaped(a) + escaped(b) =~= escaped(a));
    } else {
        lemma_escaped_in_parts(a, b.drop_last());
        assert((a + b).drop_last() =~= a + b.drop_last());
        assert(escaped(a + b) =~= escaped(a) + escaped(b));
    }
}

proof fn lemma_escaped_char(c: char)
    ensures
        escaped(seq![c]) == escaped_char(c),
{
    reveal_with_fuel(escaped, 2);
    assert(seq![c].drop_last() =~= Seq::empty());
    assert(Seq::empty() + escaped_char(c) =~= escaped_char(c));
}

/// An escaped text at the front of a pattern stands for itself.
proof fn lemma_escaped_front(
    s: Seq<char>,
    q: Seq<char>,
    rest: Seq<char>,
    same: spec_fn(char, char) -> bool,
)
    requires
        !q.contains('\\'),
    ensures
        is_like(s, escaped(q) + rest, '\\', same) == (occurs_at(q, s, 0, same) && is_like(
            s.skip(q.len() as int),
            rest,
            '\\',
            same,
        )),
    decreases q.len(),
{
    if q.len() == 0 {
        assert(escaped(q) + rest =~= rest);
        assert(s.skip(0) =~= s);
    } else {
        let c = q[0];
        let tail = q.drop_first();
        assert(q =~= seq![c] + tail);
        assert(forall|i: int| 0 <= i < tail.len() ==> tail[i] == q[i + 1]);
        lemma_escaped_in_parts(seq![c], tail);
        lemma_escaped_char(c);
        let pattern = escaped(q) + rest;
        assert(pattern =~= escaped_char(c) + (escaped(tail) + rest));
        if c == '%' || c == '_' {
            assert(pattern.skip(2) =~= escaped(tail) + rest);
        } else {
            assert(q.contains(c));
            assert(pattern.drop_first() =~= escaped(tail) + rest);
        }
        if s.len() > 0 {
            lemma_escaped_front(s.drop_first(), tail, rest, same);
            if q.len() <= s.len() {
                assert(s.drop_first().skip(tail.len() as int) =~= s.skip(q.len() as int));
            }
            if occurs_at(q, s, 0, same) {
                assert forall|i: int| 0 <= i < tail.len() implies same(
                    #[trigger] tail[i],
                    s.drop_first()[i],
                ) by {
                    assert(same(q[i + 1], s[i + 1]));
                }
            }
            if same(c, s[0]) && occurs_at(tail, s.drop_first(), 0, same) {
                assert forall|i: int| 0 <= i < q.len() implies same(#[trigger] q[i], s[i]) by {
                    if i > 0 {
                        assert(same(tail[i - 1], s.drop_first()[i - 1]));
                    }
                }
            }
        }
    }
}

proof fn lemma_any_text_is_like_percent(s: Seq<char>, same: spec_fn(char, char) -> bool)
    ensures
        is_like(s, seq!['%'], '\\', same),
    decreases s.len(),
{
    reveal_with_fuel(is_like, 2);
    if s.len() > 0 {
        lemma_any_text_is_like_percent(s.drop_first(), same);
    }
}

/// A pattern behind `%` may start anywhere.
proof fn lemma_percent_front(s: Seq<char>, rest: Seq<char>, same: spec_fn(char, char) -> bool)
    ensures
        is_like(s, seq!['%'] + rest, '\\', same) == exists|k: int|
            0 <= k <= s.len() && is_like(#[trigger] s.skip(k), rest, '\\', same),
    decreases s.len(),
{
    let pattern = seq!['%'] + rest;
    assert(pattern.drop_first() =~= rest);
    assert(s.skip(0) =~= s);
    if s.len() > 0 {
        lemma_percent_front(s.drop_first(), rest, same);
        if is_like(s.drop_first(), pattern, '\\', same) {
            let k = choose|k: int|
                0 <= k <= s.drop_first().len() && is_like(
                    #[trigger] s.drop_first().skip(k),
                    rest,
                    '\\',
                    same,
                );
            assert(s.drop_first().skip(k) =~= s.skip(k + 1));
        }
        if exists|k: int| 0 < k <= s.len() && is_like(#[trigger] s.skip(k), rest, '\\', same) {
            let k = choose|k: int|
                0 < k <= s.len() && is_like(#[trigger] s.skip(k), rest, '\\', same);
            assert(s.drop_first().skip(k - 1) =~= s.skip(k));
        }
    }
}

/// An escaped text without a backslash is like itself and like nothing else, up to characters that
/// count as the same: its wildcards have lost their meaning.
pub proof fn law_escaped_text_stands_for_itself(
    s: Seq<char>,
    text: Seq<char>,
    same: spec_fn(char, char) -> bool,
)
    requires
        !text.contains('\\'),
    ensures
        is_like(s, escaped(text), '\\', same) <==> s.len() == text.len() && occurs_at(
            text,
            s,
            0,
            same,
        ),
{
    lemma_escaped_front(s, text, Seq::empty(), same);
    assert(escaped(text) + Seq::empty() =~= escaped(text));
}

/// A task is found by the pattern of a type without a backslash exactly if its type, as a text,
/// holds that type as a key somewhere.
pub proof fn law_type_pattern_finds_the_key(
    s: Seq<char>,
    task_type: Seq<char>,
    same: spec_fn(char, char) -> bool,
)
    requires
        !task_type.contains('\\'),
    ensures
        is_like(s, type_pattern(task_type), '\\', same) <==> exists|k: int|
            occurs_at(type_as_key(task_type), s, k, same),
{
    let key = type_as_key(task_type);
    let rest = escaped(key) + seq!['%'];
    assert(type_pattern(task_type) =~= seq!['%'] + rest) by {
        reveal_strlit("%\"");
        reveal_strlit("\":%");
        lemma_escaped_in_parts(seq!['"'] + task_type, seq!['"', ':']);
        lemma_escaped_in_parts(seq!['"'], task_type);
        lemma_escaped_in_parts(seq!['"'], seq![':']);
        assert(seq!['"'] + seq![':'] =~= seq!['"', ':']);
        lemma_escaped_char('"');
        lemma_escaped_char(':');
    }
    assert(!key.contains('\\')) by {
        assert forall|i: int| 0 <= i < key.len() implies key[i] != '\\' by {
            if 1 <= i <= task_type.len() {
                assert(task_type.contains(task_type[i - 1]));
                assert(key[i] == task_type[i - 1]);
            }
        }
    }
    lemma_percent_front(s, rest, same);
    assert forall|k: int| 0 <= k <= s.len() implies is_like(
        #[trigger] s.skip(k),
        rest,
        '\\',
        same,
    ) == occurs_at(key, s, k, same) by {
        lemma_escaped_front(s.skip(k), key, seq!['%'], same);
        lemma_any_text_is_like_percent(s.skip(k).skip(key.len() as int), same);
        if occurs_at(key, s.skip(k), 0, same) {
            assert forall|i: int| 0 <= i < key.len() implies same(#[trigger] key[i], s[k + i]) by {
                assert(same(key[i], s.skip(k)[i]));
            }
        }
        if occurs_at(key, s, k, same) {
            assert forall|i: int| 0 <= i < key.len() implies same(
                #[trigger] key[i],
                s.skip(k)[i],
            ) by {
                assert(same(key[i], s[k + i]));
            }
        }
    }
    if exists|k: int| occurs_at(key, s, k, same) {
        let k = choose|k: int| occurs_at(key, s, k, same);
        assert(is_like(s.skip(k), rest, '\\', same));
    }
    if exists|k: int| 0 <= k <= s.len() && is_like(#[trigger] s.skip(k), rest, '\\', same) {
        let k = choose|k: int|
            0 <= k <= s.len() && is_like(#[trigger] s.skip(k), rest, '\\', same);
        assert(occurs_at(key, s, k, same));
    }
}

impl LatestQueryView {
    /// The query after the events, one after the other.
    pub open spec fn ran(self, events: Seq<QueryEventView>) -> LatestQueryView
        decreases events.len(),
    {
        if events.len() == 0 {
            self
        } else {
            self.ran(events.drop_last()).after(events.last()).0
        }
    }
}

/// The events of rows that come one after the other.
pub open spec fn row_events(rows: Seq<serde_json::Value>) -> Seq<QueryEventView> {
    rows.map_values(|row: serde_json::Value| QueryEventView::RowRead(Some(row)))
}

/// The texts of rows, one for each, in order.
pub open spec fn row_texts(rows: Seq<serde_json::Value>) -> Seq<Seq<char>> {
    rows.map_values(|row: serde_json::Value| json_written(row)->Ok_0)
}

proof fn lemma_rows_so_far(opened: LatestQueryView, rows: Seq<serde_json::Value>)
    requires
        opened.phase == LatestQueryPhase::Rows,
        opened.first,
        forall|i: int| 0 <= i < rows.len() ==> json_written(#[trigger] rows[i]) is Ok,
    ensures
        opened.ran(row_events(rows)) == (LatestQueryView {
            first: rows.len() == 0,
            output: opened.output + joined(row_texts(rows), seq![',']),
            ..opened
        }),
    decreases rows.len(),
{
    if rows.len() == 0 {
        assert(opened.output + joined(row_texts(rows), seq![',']) =~= opened.output);
    } else {
        let earlier = rows.drop_last();
        assert forall|i: int| 0 <= i < earlier.len() implies json_written(#[trigger] earlier[i]) is Ok by {
            assert(earlier[i] == rows[i]);
        }
        lemma_rows_so_far(opened, earlier);
        assert(row_events(rows).drop_last() =~= row_events(earlier));
        assert(row_texts(rows).drop_last() =~= row_texts(earlier));
        let last = rows.last();
        assert(json_written(rows[rows.len() - 1]) is Ok);
        let text = json_written(last)->Ok_0;
        assert(row_texts(rows).last() == text);
        assert(opened.ran(row_events(earlier)).with_row(text).output =~= opened.output + joined(
            row_texts(rows),
            seq![','],
        ));
    }
}

/// The answer is one array of all rows, in the order in which they came, with commas between them.
pub proof fn law_rows_are_answered_in_order(
    query: LatestQueryView,
    rows: Seq<serde_json::Value>,
)
    requires
        query.wf(),
        query.phase == LatestQueryPhase::Stream,
        forall|i: int| 0 <= i < rows.len() ==> json_written(#[trigger] rows[i]) is Ok,
    ensures
        query.after(QueryEventView::StreamOpened).0.ran(row_events(rows)).after(
            QueryEventView::RowRead(None),
        ).1 == document_answer(json_document(array_text(row_texts(rows)))),
{
    lemma_rows_so_far(query.after(QueryEventView::StreamOpened).0, rows);
}

proof fn lemma_permitted_before_database(task_type: Seq<char>, events: Seq<QueryEventView>)
    ensures
        ({
            let phase = LatestQueryView::begun(task_type).0.ran(events).phase;
            phase == LatestQueryPhase::Database || phase == LatestQueryPhase::Stream || phase
                == LatestQueryPhase::Rows ==> events.contains(
                QueryEventView::PermissionChecked(true),
            )
        }),
    decreases events.len(),
{
    if events.len() > 0 {
        let earlier = events.drop_last();
        lemma_permitted_before_database(task_type, earlier);
        let checked = QueryEventView::PermissionChecked(true);
        if earlier.contains(checked) {
            let i = earlier.index_of(checked);
            assert(events[i] == checked);
        }
        if events.last() == checked {
            assert(events[events.len() - 1] == checked);
        }
    }
}

/// The database is not touched before the permission was checked and granted.
pub proof fn law_no_tasks_without_permission(
    task_type: Seq<char>,
    events: Seq<QueryEventView>,
    event: QueryEventView,
)
    requires
        ({
            let action = LatestQueryView::begun(task_type).0.ran(events).after(event).1;
            action is OpenDatabase || action.reads_database()
        }),
    ensures
        events.push(event).contains(QueryEventView::PermissionChecked(true)),
{
    let checked = QueryEventView::PermissionChecked(true);
    lemma_permitted_before_database(task_type, events);
    if events.contains(checked) {
        let i = events.index_of(checked);
        assert(events.push(event)[i] == checked);
    } else {
        assert(events.push(event)[events.len() as int] == checked);
    }
}

/// A query is answered once: after an answer or a failure every event is ignored.
pub proof fn law_answered_once(
    query: LatestQueryView,
    event: QueryEventView,
    later: QueryEventView,
)
    requires
        query.after(event).1.ends(),
    ensures
        query.after(event).0.after(later) == (query.after(event).0, QueryActionView::Ignore),
{
}

/// A recorded task.
pub struct TaskRecord {
    pub id: int,
    pub uuid: u128,
    pub cron_source: Option<Seq<char>>,
    pub timestamp: Option<int>,
    pub success: Option<bool>,
    pub error_message: Option<Seq<char>>,
    /// The type of the task, as a text.
    pub task_event_type: Seq<char>,
    /// The keys of the type of the task, as a JSON object.
    pub type_keys: Set<Seq<char>>,
    pub task_event_result: Option<Seq<char>>,
}

/// What a recorded task holds in a column.
pub enum TaskCell {
    Number(Option<int>),
    Agent(u128),
    Flag(Option<bool>),
    Text(Option<Seq<char>>),
}

impl TaskRecord {
    /// What the task holds in a column.
    pub open spec fn cell(self, column: TaskColumn) -> TaskCell {
        match column {
            TaskColumn::Id => TaskCell::Number(Some(self.id)),
            TaskColumn::Uuid => TaskCell::Agent(self.uuid),
            TaskColumn::CronSource => TaskCell::Text(self.cron_source),
            TaskColumn::Timestamp => TaskCell::Number(self.timestamp),
            TaskColumn::Success => TaskCell::Flag(self.success),
            TaskColumn::ErrorMessage => TaskCell::Text(self.error_message),
            TaskColumn::TaskEventType => TaskCell::Text(Some(self.task_event_type)),
            TaskColumn::TaskEventResult => TaskCell::Text(self.task_event_result),
        }
    }
}

impl TypeConditionView {
    /// Whether a task meets the condition.
    pub open spec fn holds(self, record: TaskRecord, same: spec_fn(char, char) -> bool) -> bool {
        match self {
            TypeConditionView::HasKey(key) => record.type_keys.contains(key),
            TypeConditionView::IsLike { pattern, escape } => is_like(
                record.task_event_type,
                pattern,
                escape,
                same,
            ),
        }
    }
}

impl RowPick {
    /// Whether one task is picked rather than the other.
    pub open spec fn prefers(self, a: TaskRecord, b: TaskRecord) -> bool {
        match self {
            RowPick::Greatest(column) => match (a.cell(column), b.cell(column)) {
                (TaskCell::Number(Some(x)), TaskCell::Number(Some(y))) => x > y,
                _ => false,
            },
        }
    }
}

impl LatestSelectView {
    /// Whether two tasks are of one group.
    pub open spec fn one_group(self, a: TaskRecord, b: TaskRecord) -> bool {
        forall|i: int|
            0 <= i < self.group_by.len() ==> a.cell(#[trigger] self.group_by[i]) == b.cell(
                self.group_by[i],
            )
    }

    /// Whether a task of the table is selected: it meets the condition, and no task of its group
    /// that meets it too is picked rather than it.
    pub open spec fn selects(
        self,
        table: Seq<TaskRecord>,
        record: TaskRecord,
        same: spec_fn(char, char) -> bool,
    ) -> bool {
        &&& table.contains(record)
        &&& self.condition.holds(record, same)
        &&& forall|other: TaskRecord| #[trigger]
            table.contains(other) && self.condition.holds(other, same) && self.one_group(
                other,
                record,
            ) ==> !self.pick.prefers(other, record)
    }
}

proof fn lemma_one_group(
    backend: DatabaseBackend,
    task_type: Seq<char>,
    a: TaskRecord,
    b: TaskRecord,
)
    ensures
        latest_select(backend, task_type).one_group(a, b) <==> a.uuid == b.uuid && a.cron_source
            == b.cron_source,
{
    let select = latest_select(backend, task_type);
    if select.one_group(a, b) {
        assert(a.cell(select.group_by[0]) == b.cell(select.group_by[0]));
        assert(a.cell(select.group_by[1]) == b.cell(select.group_by[1]));
    }
}

/// The tasks that are selected are exactly the latest ones: those of the type for which there is no
/// task of the type for the same agent and the same schedule with a greater number. Tasks without a
/// schedule count as of one schedule.
pub proof fn law_latest_tasks_are_selected(
    backend: DatabaseBackend,
    task_type: Seq<char>,
    table: Seq<TaskRecord>,
    record: TaskRecord,
    same: spec_fn(char, char) -> bool,
)
    ensures
        latest_select(backend, task_type).selects(table, record, same) <==> {
            &&& table.contains(record)
            &&& type_condition_of(backend, task_type).holds(record, same)
            &&& forall|other: TaskRecord| #[trigger]
                table.contains(other) && type_condition_of(backend, task_type).holds(other, same)
                    && other.uuid == record.uuid && other.cron_source == record.cron_source
                    ==> other.id <= record.id
        },
{
    let select = latest_select(backend, task_type);
    assert forall|other: TaskRecord| select.one_group(other, record) == (other.uuid == record.uuid
        && other.cron_source == record.cron_source) by {
        lemma_one_group(backend, task_type, other, record);
    }
}

/// The latest task of the type for an agent and a schedule, looked for from the task `n` on.
proof fn lemma_latest(
    select: LatestSelectView,
    table: Seq<TaskRecord>,
    best: TaskRecord,
    same: spec_fn(char, char) -> bool,
    n: nat,
) -> (latest: TaskRecord)
    requires
        table.contains(best),
        select.pick == RowPick::Greatest(TaskColumn::Id),
        select.condition.holds(best, same),
        n <= table.len(),
        forall|i: int|
            0 <= i < n && select.condition.holds(#[trigger] table[i], same) && select.one_group(
                table[i],
                best,
            ) ==> table[i].id <= best.id,
    ensures
        select.selects(table, latest, same),
        select.one_group(latest, best),
    decreases table.len() - n,
{
    if n == table.len() {
        assert forall|other: TaskRecord| #[trigger]
            table.contains(other) && select.condition.holds(other, same) && select.one_group(
                other,
                best,
            ) implies !select.pick.prefers(other, best) by {
            let i = table.index_of(other);
            assert(table[i] == other);
        }
        best
    } else {
        let next = table[n as int];
        if select.condition.holds(next, same) && select.one_group(next, best) && next.id > best.id {
            assert forall|i: int|
                0 <= i < n + 1 && select.condition.holds(#[trigger] table[i], same)
                    && select.one_group(table[i], next) implies table[i].id <= next.id by {
                assert(select.one_group(table[i], best));
            }
            lemma_latest(select, table, next, same, n + 1)
        } else {
            lemma_latest(select, table, best, same, n + 1)
        }
    }
}

/// Each agent and schedule with a task of the type has exactly one latest task, where no two tasks
/// have the same number.
pub proof fn law_one_task_for_each_group(
    backend: DatabaseBackend,
    task_type: Seq<char>,
    table: Seq<TaskRecord>,
    record: TaskRecord,
    same: spec_fn(char, char) -> bool,
)
    requires
        forall|a: TaskRecord, b: TaskRecord|
            #![trigger table.contains(a), table.contains(b)]
            table.contains(a) && table.contains(b) && a.id == b.id ==> a == b,
        table.contains(record),
        type_condition_of(backend, task_type).holds(record, same),
    ensures
        exists|latest: TaskRecord|
            {
                &&& #[trigger] latest_select(backend, task_type).selects(table, latest, same)
                &&& latest.uuid == record.uuid
                &&& latest.cron_source == record.cron_source
            },
        forall|a: TaskRecord, b: TaskRecord|
            #![trigger latest_select(backend, task_type).selects(table, a, same),
                latest_select(backend, task_type).selects(table, b, same)]
            latest_select(backend, task_type).selects(table, a, same) && latest_select(
                backend,
                task_type,
            ).selects(table, b, same) && a.uuid == b.uuid && a.cron_source == b.cron_source ==> a
                == b,
{
    let select = latest_select(backend, task_type);
    let latest = lemma_latest(select, table, record, same, 0);
    lemma_one_group(backend, task_type, latest, record);
    assert(select.selects(table, latest, same));
    assert forall|a: TaskRecord, b: TaskRecord|
        #![trigger select.selects(table, a, same), select.selects(table, b, same)]
        select.selects(table, a, same) && select.selects(table, b, same) && a.uuid == b.uuid
            && a.cron_source == b.cron_source implies a == b by {
        lemma_one_group(backend, task_type, a, b);
        lemma_one_group(backend, task_type, b, a);
        assert(!select.pick.prefers(a, b) && !select.pick.prefers(b, a));
    }
}

proof fn lemma_type_is_kept(task_type: Seq<char>, events: Seq<QueryEventView>)
    ensures
        LatestQueryView::begun(task_type).0.ran(events).task_type == task_type,
    decreases events.len(),
{
    if events.len() > 0 {
        lemma_type_is_kept(task_type, events.drop_last());
    }
}

/// Whatever happened before, the database is asked for the tasks of the type that the query was begun
/// with: in PostgreSQL those that have the type itself as a key, and elsewhere those that are like a
/// pattern that the type stands in, with only its wildcards escaped.
pub proof fn law_type_of_the_request_is_asked_for(
    task_type: Seq<char>,
    events: Seq<QueryEventView>,
    backend: DatabaseBackend,
)
    requires
        LatestQueryView::begun(task_type).0.ran(events).phase == LatestQueryPhase::Database,
    ensures
        ({
            let query = LatestQueryView::begun(task_type).0.ran(events);
            let (next, action) = query.after(QueryEventView::DatabaseOpened(backend));
            &&& next == LatestQueryView { phase: LatestQueryPhase::Stream, ..query }
            &&& next.task_type == task_type
            &&& action matches QueryActionView::RunLatest(select)
            &&& select.condition == if backend == DatabaseBackend::Postgres {
                TypeConditionView::HasKey(task_type)
            } else {
                TypeConditionView::IsLike {
                    pattern: "%\""@ + escaped(task_type) + "\":%"@,
                    escape: '\\',
                }
            }
            &&& select.columns == seq![
                TaskColumn::Id,
                TaskColumn::Uuid,
                TaskColumn::CronSource,
                TaskColumn::Timestamp,
                TaskColumn::Success,
                TaskColumn::ErrorMessage,
                TaskColumn::TaskEventType,
                TaskColumn::TaskEventResult,
            ]
            &&& select.group_by == seq![TaskColumn::Uuid, TaskColumn::CronSource]
            &&& select.pick == RowPick::Greatest(TaskColumn::Id)
            &&& select.edits == seq![
                RowEdit::Rename { from: "id", to: "task_id" },
                RowEdit::ParseJson { member: "task_event_type" },
                RowEdit::ParseJson { member: "task_event_result" },
            ]
        }),
{
    lemma_type_is_kept(task_type, events);
}

/// Escaping goes character by character: a wildcard gets a backslash before it, and every other
/// character stays as it is.
pub proof fn law_escaping_goes_character_by_character(a: Seq<char>, c: char, b: Seq<char>)
    ensures
        escaped(Seq::empty()) == Seq::<char>::empty(),
        escaped(a + b) == escaped(a) + escaped(b),
        c == '%' || c == '_' ==> escaped(seq![c]) == seq!['\\', c],
        c != '%' && c != '_' ==> escaped(seq![c]) == seq![c],
{
    lemma_escaped_in_parts(a, b);
    lemma_escaped_char(c);
}

/// The tasks that PostgreSQL is asked for are exactly the latest ones of the type that the query was
/// begun with: those with the type as a key for which there is no task with that key for the same
/// agent and the same schedule with a greater number.
pub proof fn law_postgres_selects_the_latest_of_the_type(
    task_type: Seq<char>,
    events: Seq<QueryEventView>,
    table: Seq<TaskRecord>,
    record: TaskRecord,
    same: spec_fn(char, char) -> bool,
)
    requires
        LatestQueryView::begun(task_type).0.ran(events).phase == LatestQueryPhase::Database,
    ensures
        ({
            let action = LatestQueryView::begun(task_type).0.ran(events).after(
                QueryEventView::DatabaseOpened(DatabaseBackend::Postgres),
            ).1;
            &&& action matches QueryActionView::RunLatest(select)
            &&& select.selects(table, record, same) <==> {
                &&& table.contains(record)
                &&& record.type_keys.contains(task_type)
                &&& forall|other: TaskRecord| #[trigger]
                    table.contains(other) && other.type_keys.contains(task_type) && other.uuid
                        == record.uuid && other.cron_source == record.cron_source ==> other.id
                        <= record.id
            }
        }),
{
    lemma_type_is_kept(task_type, events);
    law_latest_tasks_are_selected(DatabaseBackend::Postgres, task_type, table, record, same);
}

/// The tasks that another database is asked for are exactly the latest ones of the type that the query
/// was begun with, if that is without a backslash: those whose type, as a text, holds it in quotes with
/// a colon behind it, and for which there is no such task for the same agent and the same schedule with
/// a greater number.
pub proof fn law_like_selects_the_latest_of_the_type(
    task_type: Seq<char>,
    events: Seq<QueryEventView>,
    backend: DatabaseBackend,
    table: Seq<TaskRecord>,
    record: TaskRecord,
    same: spec_fn(char, char) -> bool,
)
    requires
        LatestQueryView::begun(task_type).0.ran(events).phase == LatestQueryPhase::Database,
        backend != DatabaseBackend::Postgres,
        !task_type.contains('\\'),
    ensures
        ({
            let action = LatestQueryView::begun(task_type).0.ran(events).after(
                QueryEventView::DatabaseOpened(backend),
            ).1;
            let key = seq!['"'] + task_type + seq!['"', ':'];
            &&& action matches QueryActionView::RunLatest(select)
            &&& select.selects(table, record, same) <==> {
                &&& table.contains(record)
                &&& exists|k: int| occurs_at(key, record.task_event_type, k, same)
                &&& forall|other: TaskRecord| #[trigger]
                    table.contains(other) && (exists|k: int|
                        occurs_at(key, other.task_event_type, k, same)) && other.uuid == record.uuid
                        && other.cron_source == record.cron_source ==> other.id <= record.id
            }
        }),
{
    lemma_type_is_kept(task_type, events);
    law_latest_tasks_are_selected(backend, task_type, table, record, same);
    let key = seq!['"'] + task_type + seq!['"', ':'];
    let condition = type_condition_of(backend, task_type);
    assert forall|other: TaskRecord| #[trigger]
        table.contains(other) implies condition.holds(other, same) == exists|k: int|
        occurs_at(key, other.task_event_type, k, same) by {
        let text = other.task_event_type;
        law_type_pattern_finds_the_key(text, task_type, same);
        assert(type_as_key(task_type) == key);
        assert(condition == TypeConditionView::IsLike {
            pattern: type_pattern(task_type),
            escape: '\\',
        });
        if condition.holds(other, same) {
            let k = choose|k: int| occurs_at(type_as_key(task_type), text, k, same);
            assert(occurs_at(key, text, k, same));
        }
        if exists|k: int| occurs_at(key, text, k, same) {
            let k = choose|k: int| occurs_at(key, text, k, same);
            assert(occurs_at(type_as_key(task_type), text, k, same));
        }
    }
}

/// A token that was parsed needs the permission to read the tasks of the type that the query was begun
/// with, everywhere; without it, or with a token that was refused, the query fails and says why.
pub proof fn law_permission_for_the_type(
    task_type: Seq<char>,
    events: Seq<QueryEventView>,
    reason: Seq<char>,
)
    ensures
        ({
            let query = LatestQueryView::begun(task_type).0.ran(events);
            let over = LatestQueryView {
                task_type,
                phase: LatestQueryPhase::Closed,
                first: true,
                output: Seq::empty(),
            };
            &&& LatestQueryView::begun(task_type).1 == QueryActionView::ParseToken
            &&& LatestQueryView::begun(task_type).0.phase == LatestQueryPhase::Token
            &&& query.phase == LatestQueryPhase::Token ==> {
                &&& query.after(QueryEventView::TokenParsed) == (
                    LatestQueryView { phase: LatestQueryPhase::Permission, ..query },
                    QueryActionView::CheckPermission {
                        scopes: seq![Scope::Global],
                        permission: PermissionView::TaskRead(task_type),
                    },
                )
                &&& query.after(QueryEventView::TokenRefused(reason)) == (
                    over,
                    QueryActionView::Fail(
                        NodegetErrorView::ParseError("Failed to parse token: "@ + reason),
                    ),
                )
            }
            &&& query.phase == LatestQueryPhase::Permission ==> {
                &&& query.after(QueryEventView::PermissionChecked(true)) == (
                    LatestQueryView { phase: LatestQueryPhase::Database, ..query },
                    QueryActionView::OpenDatabase,
                )
                &&& query.after(QueryEventView::PermissionChecked(false)) == (
                    over,
                    QueryActionView::Fail(
                        NodegetErrorView::PermissionDenied(
                            "Permission Denied: Insufficient permissions to read task data"@,
                        ),
                    ),
                )
            }
            &&& query.phase == LatestQueryPhase::Permission || query.phase
                == LatestQueryPhase::Database ==> query.after(QueryEventView::Unavailable) == (
                over,
                QueryActionView::PassOn,
            )
        }),
{
    lemma_type_is_kept(task_type, events);
}

/// Rows that come are written behind an opening bracket, with a comma before every row but the first;
/// behind the last one the array is closed and answered. A row that cannot be written and a database
/// that fails end the query with the reason.
pub proof fn law_rows_are_written_as_they_come(
    query: LatestQueryView,
    row: serde_json::Value,
    reason: Seq<char>,
)
    ensures
        query.phase == LatestQueryPhase::Stream ==> {
            &&& query.after(QueryEventView::StreamOpened) == (
                LatestQueryView { phase: LatestQueryPhase::Rows, output: seq!['['], ..query },
                QueryActionView::NextRow,
            )
            &&& query.after(QueryEventView::DatabaseFailed(reason)).0.phase
                == LatestQueryPhase::Closed
            &&& query.after(QueryEventView::DatabaseFailed(reason)).1 == QueryActionView::Fail(
                NodegetErrorView::DatabaseError("Database query error: "@ + reason),
            )
        },
        query.phase == LatestQueryPhase::Rows ==> {
            &&& json_written(row) matches Ok(text) ==> query.after(
                QueryEventView::RowRead(Some(row)),
            ) == (
                LatestQueryView {
                    first: false,
                    output: if query.first {
                        query.output + text
                    } else {
                        query.output + seq![','] + text
                    },
                    ..query
                },
                QueryActionView::NextRow,
            )
            &&& json_written(row) matches Err(text) ==> {
                &&& query.after(QueryEventView::RowRead(Some(row))).0.phase
                    == LatestQueryPhase::Closed
                &&& query.after(QueryEventView::RowRead(Some(row))).1 == QueryActionView::Fail(
                    NodegetErrorView::SerializationError("Serialization failed: "@ + text),
                )
            }
            &&& query.after(QueryEventView::RowRead(None)).0.phase == LatestQueryPhase::Closed
            &&& query.after(QueryEventView::RowRead(None)).1 == document_answer(
                json_document(query.output + seq![']']),
            )
            &&& query.after(QueryEventView::DatabaseFailed(reason)).0.phase
                == LatestQueryPhase::Closed
            &&& query.after(QueryEventView::DatabaseFailed(reason)).1 == QueryActionView::Fail(
                NodegetErrorView::DatabaseError("Stream read error: "@ + reason),
            )
        },
{
    if query.phase == LatestQueryPhase::Rows && json_written(row) is Ok && query.first {
        let text = json_written(row)->Ok_0;
        assert(query.output + Seq::<char>::empty() + text =~= query.output + text);
    }
}

/// An event that the query does not wait for changes nothing.
pub proof fn law_other_events_are_ignored(query: LatestQueryView, event: QueryEventView)
    requires
        match query.phase {
            LatestQueryPhase::Token => !(event is TokenParsed) && !(event is TokenRefused),
            LatestQueryPhase::Permission => !(event is PermissionChecked) && !(
            event is Unavailable),
            LatestQueryPhase::Database => !(event is DatabaseOpened) && !(event is Unavailable),
            LatestQueryPhase::Stream => !(event is StreamOpened) && !(event is DatabaseFailed),
            LatestQueryPhase::Rows => !(event is RowRead) && !(event is DatabaseFailed),
            LatestQueryPhase::Closed => true,
        },
    ensures
        query.after(event) == (query, QueryActionView::Ignore),
{
}

/// A selection holds what its parts hold.
pub proof fn law_selection_in_parts(select: LatestSelect)
    ensures
        select@.columns == select.columns@,
        select@.group_by == select.group_by@,
        select@.pick == select.pick,
        select@.edits == select.edits@,
        select.condition matches TypeCondition::HasKey(key) ==> select@.condition
            == TypeConditionView::HasKey(key@),
        select.condition matches TypeCondition::IsLike { pattern, escape } ==> select@.condition
            == (TypeConditionView::IsLike { pattern: pattern@, escape }),
{
}

} // verus!
