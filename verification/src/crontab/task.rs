//! One run of a scheduled task: a task for each agent, and one log entry for each agent.
//!
//! The run is driven from outside: every action names what is to be done next, and what came of
//! it is handed back as an event.
use crate::agent_id::{id_text, uuid_text};
use crate::clock::{in_calendar, now_milliseconds};
use crate::error::{labelled, NodegetError, NodegetErrorView};
use crate::json::clone_value;
use crate::text::{i64_text, int_text};
use vstd::prelude::*;
use vstd::string::*;

verus! {

/// How many characters the token of a task has.
pub const TOKEN_LENGTH: usize = 10;

/// A task as it is first recorded.
pub struct TaskRow {
    pub uuid: u128,
    pub token: String,
    pub cron_source: Option<String>,
    pub timestamp: Option<i64>,
    pub success: Option<bool>,
    pub error_message: Option<String>,
    pub task_event_type: serde_json::Value,
    pub task_event_result: Option<serde_json::Value>,
}

/// What an agent is sent of a task.
pub struct TaskEvent {
    pub task_id: u64,
    pub task_token: String,
    pub task_event_type: serde_json::Value,
}

/// What is recorded of one agent in one run.
pub struct CrontabResult {
    pub cron_id: i64,
    pub cron_name: String,
    pub relative_id: Option<i64>,
    pub run_time: Option<i64>,
    pub success: Option<bool>,
    pub message: Option<String>,
}

/// What is to be done next.
pub enum DispatchAction {
    /// Draw a random token of the given length.
    DrawToken(usize),
    /// Record a task.
    InsertTask(TaskRow),
    /// Send a task to an agent.
    SendEvent { uuid: u128, event: TaskEvent },
    /// Take a recorded task back.
    DeleteTask(i64),
    /// Render a failure as text.
    RenderError(NodegetError),
    /// Record the log entries of the run, all at once.
    SaveResults(Vec<CrontabResult>),
    /// The run is over.
    Finish,
    /// The event does not belong here; nothing is to be done.
    Ignore,
}

/// What came of an action.
pub enum DispatchEvent {
    TokenDrawn(String),
    Inserted(i64),
    InsertFailed(String),
    Sent,
    SendFailed(String),
    /// The attempt to take a task back is over, with or without success.
    Deleted,
    Rendered(String),
    /// The attempt to record the log entries is over, with or without success.
    Saved,
}

/// What the run waits for.
pub enum DispatchPhase {
    Token,
    Insert { token: String },
    Send { task_id: i64 },
    Rollback { error: NodegetError },
    Render,
    Save,
    Closed,
}

/// One run of a scheduled task. The agents are served in order, and the log entries so far belong
/// to the agents at the front.
pub struct CrontabRun {
    cron_id: i64,
    cron_name: String,
    uuids: Vec<u128>,
    task_type: serde_json::Value,
    run_time: i64,
    phase: DispatchPhase,
    results: Vec<CrontabResult>,
}

pub struct TaskRowView {
    pub uuid: u128,
    pub token: Seq<char>,
    pub cron_source: Option<Seq<char>>,
    pub timestamp: Option<i64>,
    pub success: Option<bool>,
    pub error_message: Option<Seq<char>>,
    pub task_event_type: serde_json::Value,
    pub task_event_result: Option<serde_json::Value>,
}

pub struct TaskEventView {
    pub task_id: u64,
    pub task_token: Seq<char>,
    pub task_event_type: serde_json::Value,
}

pub struct CrontabResultView {
    pub cron_id: i64,
    pub cron_name: Seq<char>,
    pub relative_id: Option<i64>,
    pub run_time: Option<i64>,
    pub success: Option<bool>,
    pub message: Option<Seq<char>>,
}

pub enum DispatchActionView {
    DrawToken(usize),
    InsertTask(TaskRowView),
    SendEvent { uuid: u128, event: TaskEventView },
    DeleteTask(i64),
    RenderError(NodegetErrorView),
    SaveResults(Seq<CrontabResultView>),
    Finish,
    Ignore,
}

pub enum DispatchEventView {
    TokenDrawn(Seq<char>),
    Inserted(i64),
    InsertFailed(Seq<char>),
    Sent,
    SendFailed(Seq<char>),
    Deleted,
    Rendered(Seq<char>),
    Saved,
}

pub enum DispatchPhaseView {
    Token,
    Insert { token: Seq<char> },
    Send { task_id: i64 },
    Rollback { error: NodegetErrorView },
    Render,
    Save,
    Closed,
}

pub struct CrontabRunView {
    pub cron_id: i64,
    pub cron_name: Seq<char>,
    pub uuids: Seq<u128>,
    pub task_type: serde_json::Value,
    pub run_time: i64,
    pub phase: DispatchPhaseView,
    pub results: Seq<CrontabResultView>,
}

/// The characters of an optional text.
pub open spec fn optional_text(s: Option<String>) -> Option<Seq<char>> {
    match s {
        Some(text) => Some(text@),
        None => None,
    }
}

impl View for TaskRow {
    type V = TaskRowView;

    open spec fn view(&self) -> TaskRowView {
        TaskRowView {
            uuid: self.uuid,
            token: self.token@,
            cron_source: optional_text(self.cron_source),
            timestamp: self.timestamp,
            success: self.success,
            error_message: optional_text(self.error_message),
            task_event_type: self.task_event_type,
            task_event_result: self.task_event_result,
        }
    }
}

impl View for TaskEvent {
    type V = TaskEventView;

    open spec fn view(&self) -> TaskEventView {
        TaskEventView {
            task_id: self.task_id,
            task_token: self.task_token@,
            task_event_type: self.task_event_type,
        }
    }
}

impl View for CrontabResult {
    type V = CrontabResultView;

    open spec fn view(&self) -> CrontabResultView {
        CrontabResultView {
            cron_id: self.cron_id,
            cron_name: self.cron_name@,
            relative_id: self.relative_id,
            run_time: self.run_time,
            success: self.success,
            message: optional_text(self.message),
        }
    }
}

/// The views of log entries, in order.
pub open spec fn results_view(results: Seq<CrontabResult>) -> Seq<CrontabResultView> {
    results.map_values(|result: CrontabResult| result@)
}

impl View for DispatchAction {
    type V = DispatchActionView;

    open spec fn view(&self) -> DispatchActionView {
        match self {
            DispatchAction::DrawToken(length) => DispatchActionView::DrawToken(*length),
            DispatchAction::InsertTask(row) => DispatchActionView::InsertTask(row@),
            DispatchAction::SendEvent { uuid, event } => DispatchActionView::SendEvent {
                uuid: *uuid,
                event: event@,
            },
            DispatchAction::DeleteTask(task_id) => DispatchActionView::DeleteTask(*task_id),
            DispatchAction::RenderError(error) => DispatchActionView::RenderError(error@),
            DispatchAction::SaveResults(results) => DispatchActionView::SaveResults(
                results_view(results@),
            ),
            DispatchAction::Finish => DispatchActionView::Finish,
            DispatchAction::Ignore => DispatchActionView::Ignore,
        }
    }
}

impl View for DispatchEvent {
    type V = DispatchEventView;

    open spec fn view(&self) -> DispatchEventView {
        match self {
            DispatchEvent::TokenDrawn(token) => DispatchEventView::TokenDrawn(token@),
            DispatchEvent::Inserted(task_id) => DispatchEventView::Inserted(*task_id),
            DispatchEvent::InsertFailed(reason) => DispatchEventView::InsertFailed(reason@),
            DispatchEvent::Sent => DispatchEventView::Sent,
            DispatchEvent::SendFailed(reason) => DispatchEventView::SendFailed(reason@),
            DispatchEvent::Deleted => DispatchEventView::Deleted,
            DispatchEvent::Rendered(text) => DispatchEventView::Rendered(text@),
            DispatchEvent::Saved => DispatchEventView::Saved,
        }
    }
}

impl View for DispatchPhase {
    type V = DispatchPhaseView;

    open spec fn view(&self) -> DispatchPhaseView {
        match self {
            DispatchPhase::Token => DispatchPhaseView::Token,
            DispatchPhase::Insert { token } => DispatchPhaseView::Insert { token: token@ },
            DispatchPhase::Send { task_id } => DispatchPhaseView::Send { task_id: *task_id },
            DispatchPhase::Rollback { error } => DispatchPhaseView::Rollback { error: error@ },
            DispatchPhase::Render => DispatchPhaseView::Render,
            DispatchPhase::Save => DispatchPhaseView::Save,
            DispatchPhase::Closed => DispatchPhaseView::Closed,
        }
    }
}

impl View for CrontabRun {
    type V = CrontabRunView;

    closed spec fn view(&self) -> CrontabRunView {
        CrontabRunView {
            cron_id: self.cron_id,
            cron_name: self.cron_name@,
            uuids: self.uuids@,
            task_type: self.task_type,
            run_time: self.run_time,
            phase: self.phase@,
            results: results_view(self.results@),
        }
    }
}

/// The number that `i` is as an unsigned number of the same bits.
pub open spec fn unsigned_of(i: i64) -> u64 {
    if i < 0 {
        (i + 0x1_0000_0000_0000_0000) as u64
    } else {
        i as u64
    }
}

/// The task that is recorded for an agent.
pub open spec fn task_row(run: CrontabRunView, uuid: u128, token: Seq<char>) -> TaskRowView {
    TaskRowView {
        uuid,
        token,
        cron_source: Some(run.cron_name),
        timestamp: None,
        success: None,
        error_message: None,
        task_event_type: run.task_type,
        task_event_result: None,
    }
}

/// What an agent is sent of its recorded task: the number and the token of that record, and the type
/// of the run.
pub open spec fn task_event(run: CrontabRunView, task_id: i64, token: Seq<char>) -> TaskEventView {
    TaskEventView {
        task_id: unsigned_of(task_id),
        task_token: token,
        task_event_type: run.task_type,
    }
}

/// The log entry of an agent that was sent its task.
pub open spec fn sent_result(run: CrontabRunView, uuid: u128, task_id: i64) -> CrontabResultView {
    CrontabResultView {
        cron_id: run.cron_id,
        cron_name: run.cron_name,
        relative_id: Some(task_id),
        run_time: Some(run.run_time),
        success: Some(true),
        message: Some(
            "任务下发成功，Agent：["@ + uuid_text(uuid) + "]，relative_id："@ + int_text(
                task_id as int,
            ),
        ),
    }
}

/// The log entry of an agent that was not sent its task.
pub open spec fn failed_result(
    run: CrontabRunView,
    uuid: u128,
    rendered: Seq<char>,
) -> CrontabResultView {
    CrontabResultView {
        cron_id: run.cron_id,
        cron_name: run.cron_name,
        relative_id: None,
        run_time: Some(run.run_time),
        success: Some(false),
        message: Some(
            "任务下发失败，Agent：["@ + uuid_text(uuid) + "]，错误："@ + rendered,
        ),
    }
}

/// The failure to record a task.
pub open spec fn insert_failure(reason: Seq<char>) -> NodegetErrorView {
    NodegetErrorView::DatabaseError("Database insert error: "@ + reason)
}

/// The failure to send a task.
pub open spec fn send_failure(reason: Seq<char>) -> NodegetErrorView {
    NodegetErrorView::AgentConnectionError("Error sending task event: "@ + reason)
}

impl CrontabRunView {
    /// The agent whose turn it is.
    pub open spec fn current(self) -> u128 {
        self.uuids[self.results.len() as int]
    }

    /// The run with another phase.
    pub open spec fn at(self, phase: DispatchPhaseView) -> CrontabRunView {
        CrontabRunView { phase, ..self }
    }

    /// The run and the action after the log entry of the current agent: the next agent, or the
    /// end.
    pub open spec fn logged(self, result: CrontabResultView) -> (
        CrontabRunView,
        DispatchActionView,
    ) {
        let results = self.results.push(result);
        if results.len() < self.uuids.len() {
            (
                CrontabRunView { phase: DispatchPhaseView::Token, results, ..self },
                DispatchActionView::DrawToken(TOKEN_LENGTH),
            )
        } else {
            (
                CrontabRunView { phase: DispatchPhaseView::Save, results: Seq::empty(), ..self },
                DispatchActionView::SaveResults(results),
            )
        }
    }

    /// The run at its start, and its first action. A run without agents is over at once.
    pub open spec fn begun(
        cron_id: i64,
        cron_name: Seq<char>,
        uuids: Seq<u128>,
        task_type: serde_json::Value,
        run_time: i64,
    ) -> (CrontabRunView, DispatchActionView) {
        (
            CrontabRunView {
                cron_id,
                cron_name,
                uuids,
                task_type,
                run_time,
                phase: if uuids.len() == 0 {
                    DispatchPhaseView::Closed
                } else {
                    DispatchPhaseView::Token
                },
                results: Seq::empty(),
            },
            if uuids.len() == 0 {
                DispatchActionView::Finish
            } else {
                DispatchActionView::DrawToken(TOKEN_LENGTH)
            },
        )
    }

    /// The run after an event, and the action that follows. An event that the phase does not wait
    /// for changes nothing.
    pub open spec fn after(self, event: DispatchEventView) -> (CrontabRunView, DispatchActionView) {
        match (self.phase, event) {
            (DispatchPhaseView::Token, DispatchEventView::TokenDrawn(token)) => (
                self.at(DispatchPhaseView::Insert { token }),
                DispatchActionView::InsertTask(task_row(self, self.current(), token)),
            ),
            (DispatchPhaseView::Insert { token }, DispatchEventView::Inserted(task_id)) => (
                self.at(DispatchPhaseView::Send { task_id }),
                DispatchActionView::SendEvent {
                    uuid: self.current(),
                    event: task_event(self, task_id, token),
                },
            ),
            (DispatchPhaseView::Insert { token }, DispatchEventView::InsertFailed(reason)) => (
                self.at(DispatchPhaseView::Render),
                DispatchActionView::RenderError(insert_failure(reason)),
            ),
            (DispatchPhaseView::Send { task_id }, DispatchEventView::Sent) => self.logged(
                sent_result(self, self.current(), task_id),
            ),
            (DispatchPhaseView::Send { task_id }, DispatchEventView::SendFailed(reason)) => (
                self.at(DispatchPhaseView::Rollback { error: send_failure(reason) }),
                DispatchActionView::DeleteTask(task_id),
            ),
            (DispatchPhaseView::Rollback { error }, DispatchEventView::Deleted) => (
                self.at(DispatchPhaseView::Render),
                DispatchActionView::RenderError(error),
            ),
            (DispatchPhaseView::Render, DispatchEventView::Rendered(text)) => self.logged(
                failed_result(self, self.current(), text),
            ),
            (DispatchPhaseView::Save, DispatchEventView::Saved) => (
                self.at(DispatchPhaseView::Closed),
                DispatchActionView::Finish,
            ),
            _ => (self, DispatchActionView::Ignore),
        }
    }

    /// While agents are served, one of them has its turn; before and after, no log entry is held.
    /// A log entry names a task exactly if it reports success.
    pub open spec fn wf(self) -> bool {
        &&& match self.phase {
            DispatchPhaseView::Save | DispatchPhaseView::Closed => self.results.len() == 0,
            _ => self.results.len() < self.uuids.len(),
        }
        &&& forall|i: int|
            0 <= i < self.results.len() ==> result_agrees(
                #[trigger] self.results[i],
                self.cron_id,
                self.cron_name,
                self.run_time,
            )
    }
}

/// What every log entry of a run has in common.
pub open spec fn result_agrees(
    result: CrontabResultView,
    cron_id: i64,
    cron_name: Seq<char>,
    run_time: i64,
) -> bool {
    &&& result.cron_id == cron_id
    &&& result.cron_name == cron_name
    &&& result.run_time == Some(run_time)
    &&& result.success == Some(result.relative_id is Some)
    &&& result.message is Some
}

/// The number that `i` is as an unsigned number of the same bits.
fn to_unsigned(i: i64) -> (u: u64)
    ensures
        u == unsigned_of(i),
{
    if i < 0 {
        (i as i128 + 0x1_0000_0000_0000_0000i128) as u64
    } else {
        i as u64
    }
}

impl CrontabRun {
    /// Whether the run is in a state that `start` and `step` can bring about.
    pub closed spec fn wf(&self) -> bool {
        self@.wf()
    }

    /// Starts a run at the given moment, in milliseconds.
    pub fn start(
        cron_id: i64,
        cron_name: String,
        uuids: Vec<u128>,
        task_type: serde_json::Value,
        run_time: i64,
    ) -> (r: (CrontabRun, DispatchAction))
        ensures
            r.0.wf(),
            r.0@.wf(),
            (r.0@, r.1@) == CrontabRunView::begun(
                cron_id,
                cron_name@,
                uuids@,
                task_type,
                run_time,
            ),
    {
        let empty = uuids.len() == 0;
        let run = CrontabRun {
            cron_id,
            cron_name,
            uuids,
            task_type,
            run_time,
            phase: if empty {
                DispatchPhase::Closed
            } else {
                DispatchPhase::Token
            },
            results: Vec::new(),
        };
        assert(run@.results =~= Seq::empty());
        if empty {
            (run, DispatchAction::Finish)
        } else {
            (run, DispatchAction::DrawToken(TOKEN_LENGTH))
        }
    }

    /// Starts a run at the present moment.
    pub fn start_now(
        cron_id: i64,
        cron_name: String,
        uuids: Vec<u128>,
        task_type: serde_json::Value,
    ) -> (r: (CrontabRun, DispatchAction))
        ensures
            r.0.wf(),
            r.0@.wf(),
            0 <= r.0@.run_time,
            in_calendar(r.0@.run_time as int / 1000),
            (r.0@, r.1@) == CrontabRunView::begun(
                cron_id,
                cron_name@,
                uuids@,
                task_type,
                r.0@.run_time,
            ),
    {
        CrontabRun::start(cron_id, cron_name, uuids, task_type, now_milliseconds())
    }

    /// Adds the log entry of the current agent and goes on.
    fn log(self, relative_id: Option<i64>, message: String) -> (r: (CrontabRun, DispatchAction))
        requires
            self.wf(),
            self@.results.len() < self@.uuids.len(),
        ensures
            r.0.wf(),
            (r.0@, r.1@) == self@.logged(
                CrontabResultView {
                    cron_id: self@.cron_id,
                    cron_name: self@.cron_name,
                    relative_id,
                    run_time: Some(self@.run_time),
                    success: Some(relative_id is Some),
                    message: Some(message@),
                },
            ),
    {
        let CrontabRun { cron_id, cron_name, uuids, task_type, run_time, phase, results } = self;
        let mut results = results;
        let ghost before = results_view(results@);
        let result = CrontabResult {
            cron_id,
            cron_name: cron_name.clone(),
            relative_id,
            run_time: Some(run_time),
            success: Some(relative_id.is_some()),
            message: Some(message),
        };
        let ghost entry = result@;
        results.push(result);
        assert(results_view(results@) =~= before.push(entry));
        if results.len() < uuids.len() {
            let run = CrontabRun {
                cron_id,
                cron_name,
                uuids,
                task_type,
                run_time,
                phase: DispatchPhase::Token,
                results,
            };
            (run, DispatchAction::DrawToken(TOKEN_LENGTH))
        } else {
            let run = CrontabRun {
                cron_id,
                cron_name,
                uuids,
                task_type,
                run_time,
                phase: DispatchPhase::Save,
                results: Vec::new(),
            };
            assert(run@.results =~= Seq::empty());
            (run, DispatchAction::SaveResults(results))
        }
    }

    /// Takes an event and says what is to be done next.
    pub fn step(self, event: DispatchEvent) -> (r: (CrontabRun, DispatchAction))
        requires
            self.wf(),
        ensures
            r.0.wf(),
            r.0@.wf(),
            (r.0@, r.1@) == self@.after(event@),
    {
        let mut run = self;
        let mut phase = DispatchPhase::Closed;
        std::mem::swap(&mut phase, &mut run.phase);
        match (phase, event) {
            (DispatchPhase::Token, DispatchEvent::TokenDrawn(token)) => {
                let uuid: u128 = run.uuids[run.results.len()];
                let row = TaskRow {
                    uuid,
                    token: token.clone(),
                    cron_source: Some(run.cron_name.clone()),
                    timestamp: None,
                    success: None,
                    error_message: None,
                    task_event_type: clone_value(&run.task_type),
                    task_event_result: None,
                };
                run.phase = DispatchPhase::Insert { token };
                (run, DispatchAction::InsertTask(row))
            },
            (DispatchPhase::Insert { token }, DispatchEvent::Inserted(task_id)) => {
                let uuid: u128 = run.uuids[run.results.len()];
                run.phase = DispatchPhase::Send { task_id };
                let event = TaskEvent {
                    task_id: to_unsigned(task_id),
                    task_token: token,
                    task_event_type: clone_value(&run.task_type),
                };
                (run, DispatchAction::SendEvent { uuid, event })
            },
            (DispatchPhase::Insert { token: _ }, DispatchEvent::InsertFailed(reason)) => {
                run.phase = DispatchPhase::Render;
                let error = NodegetError::DatabaseError(
                    labelled("Database insert error: ", reason.as_str()),
                );
                (run, DispatchAction::RenderError(error))
            },
            (DispatchPhase::Send { task_id }, DispatchEvent::Sent) => {
                let uuid: u128 = run.uuids[run.results.len()];
                let message = labelled("任务下发成功，Agent：[", id_text(uuid).as_str()).concat(
                    "]，relative_id：",
                ).concat(i64_text(task_id).as_str());
                run.phase = DispatchPhase::Send { task_id };
                run.log(Some(task_id), message)
            },
            (DispatchPhase::Send { task_id }, DispatchEvent::SendFailed(reason)) => {
                let error = NodegetError::AgentConnectionError(
                    labelled("Error sending task event: ", reason.as_str()),
                );
                run.phase = DispatchPhase::Rollback { error };
                (run, DispatchAction::DeleteTask(task_id))
            },
            (DispatchPhase::Rollback { error }, DispatchEvent::Deleted) => {
                run.phase = DispatchPhase::Render;
                (run, DispatchAction::RenderError(error))
            },
            (DispatchPhase::Render, DispatchEvent::Rendered(text)) => {
                let uuid: u128 = run.uuids[run.results.len()];
                let message = labelled("任务下发失败，Agent：[", id_text(uuid).as_str()).concat(
                    "]，错误：",
                ).concat(text.as_str());
                run.phase = DispatchPhase::Render;
                run.log(None, message)
            },
            (DispatchPhase::Save, DispatchEvent::Saved) => {
                run.phase = DispatchPhase::Closed;
                (run, DispatchAction::Finish)
            },
            (phase, _) => {
                run.phase = phase;
                (run, DispatchAction::Ignore)
            },
        }
    }
}

/// What became of one agent's task, with all that was handed in on the way.
pub enum Outcome {
    /// The task could not be recorded.
    NotInserted { token: Seq<char>, reason: Seq<char>, rendered: Seq<char> },
    /// The task was recorded and sent.
    Sent { token: Seq<char>, task_id: i64 },
    /// The task was recorded and could not be sent.
    NotSent { token: Seq<char>, task_id: i64, reason: Seq<char>, rendered: Seq<char> },
}

impl Outcome {
    /// The events of one agent's turn.
    pub open spec fn events(self) -> Seq<DispatchEventView> {
        match self {
            Outcome::NotInserted { token, reason, rendered } => seq![
                DispatchEventView::TokenDrawn(token),
                DispatchEventView::InsertFailed(reason),
                DispatchEventView::Rendered(rendered),
            ],
            Outcome::Sent { token, task_id } => seq![
                DispatchEventView::TokenDrawn(token),
                DispatchEventView::Inserted(task_id),
                DispatchEventView::Sent,
            ],
            Outcome::NotSent { token, task_id, reason, rendered } => seq![
                DispatchEventView::TokenDrawn(token),
                DispatchEventView::Inserted(task_id),
                DispatchEventView::SendFailed(reason),
                DispatchEventView::Deleted,
                DispatchEventView::Rendered(rendered),
            ],
        }
    }

    /// The actions of one agent's turn, before the one that goes on to the next agent.
    pub open spec fn actions(self, run: CrontabRunView, uuid: u128) -> Seq<DispatchActionView> {
        match self {
            Outcome::NotInserted { token, reason, rendered } => seq![
                DispatchActionView::InsertTask(task_row(run, uuid, token)),
                DispatchActionView::RenderError(insert_failure(reason)),
            ],
            Outcome::Sent { token, task_id } => seq![
                DispatchActionView::InsertTask(task_row(run, uuid, token)),
                DispatchActionView::SendEvent {
                    uuid,
                    event: task_event(run, task_id, token),
                },
            ],
            Outcome::NotSent { token, task_id, reason, rendered } => seq![
                DispatchActionView::InsertTask(task_row(run, uuid, token)),
                DispatchActionView::SendEvent {
                    uuid,
                    event: task_event(run, task_id, token),
                },
                DispatchActionView::DeleteTask(task_id),
                DispatchActionView::RenderError(send_failure(reason)),
            ],
        }
    }

    /// The log entry of the agent.
    pub open spec fn result(self, run: CrontabRunView, uuid: u128) -> CrontabResultView {
        match self {
            Outcome::NotInserted { token, reason, rendered } => failed_result(run, uuid, rendered),
            Outcome::Sent { token, task_id } => sent_result(run, uuid, task_id),
            Outcome::NotSent { token, task_id, reason, rendered } => failed_result(
                run,
                uuid,
                rendered,
            ),
        }
    }
}

/// The run after the events, one after the other, and the actions that they led to.
pub open spec fn play(run: CrontabRunView, events: Seq<DispatchEventView>) -> (
    CrontabRunView,
    Seq<DispatchActionView>,
)
    decreases events.len(),
{
    if events.len() == 0 {
        (run, Seq::empty())
    } else {
        let (before, actions) = play(run, events.drop_last());
        let (after, action) = before.after(events.last());
        (after, actions.push(action))
    }
}

/// The events of all turns, one after the other.
pub open spec fn all_events(outcomes: Seq<Outcome>) -> Seq<DispatchEventView>
    decreases outcomes.len(),
{
    if outcomes.len() == 0 {
        Seq::empty()
    } else {
        all_events(outcomes.drop_last()) + outcomes.last().events()
    }
}

proof fn lemma_play_in_parts(
    run: CrontabRunView,
    first: Seq<DispatchEventView>,
    second: Seq<DispatchEventView>,
)
    ensures
        ({
            let (middle, actions1) = play(run, first);
            let (last, actions2) = play(middle, second);
            play(run, first + second) == (last, actions1 + actions2)
        }),
    decreases second.len(),
{
    let (middle, actions1) = play(run, first);
    if second.len() == 0 {
        assert(first + second =~= first);
        assert(actions1 + Seq::empty() =~= actions1);
    } else {
        lemma_play_in_parts(run, first, second.drop_last());
        assert((first + second).drop_last() =~= first + second.drop_last());
        let (before, actions) = play(middle, second.drop_last());
        let action = before.after(second.last()).1;
        assert(actions1 + actions.push(action) =~= (actions1 + actions).push(action));
    }
}

proof fn lemma_play_one_more(
    run: CrontabRunView,
    events: Seq<DispatchEventView>,
    event: DispatchEventView,
)
    ensures
        play(run, events.push(event)) == (
            play(run, events).0.after(event).0,
            play(run, events).1.push(play(run, events).0.after(event).1),
        ),
{
    assert(events.push(event).drop_last() =~= events);
}

/// One agent's turn: its task is recorded first; it is sent only if it was recorded; it is taken
/// back exactly if it was recorded and could not be sent; and whatever happened, one log entry is
/// made, and the run goes on.
pub proof fn law_turn_of_an_agent(run: CrontabRunView, outcome: Outcome)
    requires
        run.wf(),
        run.phase is Token,
    ensures
        ({
            let (next, action) = run.logged(outcome.result(run, run.current()));
            play(run, outcome.events()) == (
                next,
                outcome.actions(run, run.current()).push(action),
            )
        }),
{
    let none = Seq::<DispatchEventView>::empty();
    assert(play(run, none) == (run, Seq::<DispatchActionView>::empty()));
    match outcome {
        Outcome::NotInserted { token, reason, rendered } => {
            let drawn = DispatchEventView::TokenDrawn(token);
            let failed = DispatchEventView::InsertFailed(reason);
            lemma_play_one_more(run, none, drawn);
            lemma_play_one_more(run, none.push(drawn), failed);
            lemma_play_one_more(
                run,
                none.push(drawn).push(failed),
                DispatchEventView::Rendered(rendered),
            );
            assert(outcome.events() =~= none.push(drawn).push(failed).push(
                DispatchEventView::Rendered(rendered),
            ));
        },
        Outcome::Sent { token, task_id } => {
            let drawn = DispatchEventView::TokenDrawn(token);
            let inserted = DispatchEventView::Inserted(task_id);
            lemma_play_one_more(run, none, drawn);
            lemma_play_one_more(run, none.push(drawn), inserted);
            lemma_play_one_more(run, none.push(drawn).push(inserted), DispatchEventView::Sent);
            assert(outcome.events() =~= none.push(drawn).push(inserted).push(
                DispatchEventView::Sent,
            ));
        },
        Outcome::NotSent { token, task_id, reason, rendered } => {
            let drawn = DispatchEventView::TokenDrawn(token);
            let inserted = DispatchEventView::Inserted(task_id);
            let failed = DispatchEventView::SendFailed(reason);
            let three = none.push(drawn).push(inserted).push(failed);
            lemma_play_one_more(run, none, drawn);
            lemma_play_one_more(run, none.push(drawn), inserted);
            lemma_play_one_more(run, none.push(drawn).push(inserted), failed);
            lemma_play_one_more(run, three, DispatchEventView::Deleted);
            lemma_play_one_more(
                run,
                three.push(DispatchEventView::Deleted),
                DispatchEventView::Rendered(rendered),
            );
            assert(outcome.events() =~= three.push(DispatchEventView::Deleted).push(
                DispatchEventView::Rendered(rendered),
            ));
        },
    }
    let action = run.logged(outcome.result(run, run.current())).1;
    assert(play(run, outcome.events()).1 =~= outcome.actions(run, run.current()).push(action));
}

/// The log entries of the first agents, one for each, in order.
pub open spec fn results_of(run: CrontabRunView, outcomes: Seq<Outcome>) -> Seq<CrontabResultView> {
    Seq::new(outcomes.len(), |i: int| outcomes[i].result(run, run.uuids[i]))
}

proof fn lemma_first_turns(run: CrontabRunView, outcomes: Seq<Outcome>)
    requires
        run.wf(),
        run.phase is Token,
        run.results.len() == 0,
        outcomes.len() < run.uuids.len(),
    ensures
        play(run, all_events(outcomes)).0 == (CrontabRunView {
            results: results_of(run, outcomes),
            ..run
        }),
        play(run, all_events(outcomes)).0.wf(),
    decreases outcomes.len(),
{
    if outcomes.len() == 0 {
        assert(results_of(run, outcomes) =~= run.results);
    } else {
        let earlier = outcomes.drop_last();
        lemma_first_turns(run, earlier);
        let before = play(run, all_events(earlier)).0;
        law_turn_of_an_agent(before, outcomes.last());
        lemma_play_in_parts(run, all_events(earlier), outcomes.last().events());
        assert(results_of(run, earlier).push(
            outcomes.last().result(before, run.uuids[earlier.len() as int]),
        ) =~= results_of(run, outcomes));
    }
}

/// Whatever becomes of the single tasks, a run over at least one agent ends by recording exactly
/// one log entry for each agent, in the order of the agents, all at once.
pub proof fn law_one_result_per_agent(
    cron_id: i64,
    cron_name: Seq<char>,
    uuids: Seq<u128>,
    task_type: serde_json::Value,
    run_time: i64,
    outcomes: Seq<Outcome>,
)
    requires
        outcomes.len() == uuids.len(),
        uuids.len() > 0,
    ensures
        ({
            let run = CrontabRunView::begun(cron_id, cron_name, uuids, task_type, run_time).0;
            let (end, actions) = play(run, all_events(outcomes));
            &&& end.phase is Save
            &&& actions.len() > 0
            &&& actions.last() == DispatchActionView::SaveResults(results_of(run, outcomes))
        }),
{
    let run = CrontabRunView::begun(cron_id, cron_name, uuids, task_type, run_time).0;
    let earlier = outcomes.drop_last();
    lemma_first_turns(run, earlier);
    let before = play(run, all_events(earlier)).0;
    law_turn_of_an_agent(before, outcomes.last());
    lemma_play_in_parts(run, all_events(earlier), outcomes.last().events());
    assert(results_of(run, earlier).push(
        outcomes.last().result(before, run.uuids[earlier.len() as int]),
    ) =~= results_of(run, outcomes));
}

impl Outcome {
    /// The token that was drawn for the task.
    pub open spec fn token(self) -> Seq<char> {
        match self {
            Outcome::NotInserted { token, .. } => token,
            Outcome::Sent { token, .. } => token,
            Outcome::NotSent { token, .. } => token,
        }
    }
}

/// The tasks that the actions record, in order.
pub open spec fn insertions(actions: Seq<DispatchActionView>) -> Seq<TaskRowView>
    decreases actions.len(),
{
    if actions.len() == 0 {
        Seq::empty()
    } else {
        match actions.last() {
            DispatchActionView::InsertTask(row) => insertions(actions.drop_last()).push(row),
            _ => insertions(actions.drop_last()),
        }
    }
}

/// The tasks that the actions send, by their numbers, in order.
pub open spec fn sendings(actions: Seq<DispatchActionView>) -> Seq<u64>
    decreases actions.len(),
{
    if actions.len() == 0 {
        Seq::empty()
    } else {
        match actions.last() {
            DispatchActionView::SendEvent { event, .. } => sendings(actions.drop_last()).push(
                event.task_id,
            ),
            _ => sendings(actions.drop_last()),
        }
    }
}

/// The tasks that the actions take back, in order.
pub open spec fn deletions(actions: Seq<DispatchActionView>) -> Seq<i64>
    decreases actions.len(),
{
    if actions.len() == 0 {
        Seq::empty()
    } else {
        match actions.last() {
            DispatchActionView::DeleteTask(task_id) => deletions(actions.drop_last()).push(task_id),
            _ => deletions(actions.drop_last()),
        }
    }
}

/// The batches of log entries that the actions record, in order.
pub open spec fn batches(actions: Seq<DispatchActionView>) -> Seq<Seq<CrontabResultView>>
    decreases actions.len(),
{
    if actions.len() == 0 {
        Seq::empty()
    } else {
        match actions.last() {
            DispatchActionView::SaveResults(results) => batches(actions.drop_last()).push(results),
            _ => batches(actions.drop_last()),
        }
    }
}

/// The tasks that are recorded for the first agents, one for each, in order.
pub open spec fn rows_of(run: CrontabRunView, outcomes: Seq<Outcome>) -> Seq<TaskRowView> {
    Seq::new(outcomes.len(), |i: int| task_row(run, run.uuids[i], outcomes[i].token()))
}

/// The tasks that were recorded, by their numbers, in order.
pub open spec fn recorded(outcomes: Seq<Outcome>) -> Seq<u64>
    decreases outcomes.len(),
{
    if outcomes.len() == 0 {
        Seq::empty()
    } else {
        match outcomes.last() {
            Outcome::Sent { task_id, .. } => recorded(outcomes.drop_last()).push(
                unsigned_of(task_id),
            ),
            Outcome::NotSent { task_id, .. } => recorded(outcomes.drop_last()).push(
                unsigned_of(task_id),
            ),
            Outcome::NotInserted { .. } => recorded(outcomes.drop_last()),
        }
    }
}

/// The tasks that were recorded and could not be sent, in order.
pub open spec fn unsent(outcomes: Seq<Outcome>) -> Seq<i64>
    decreases outcomes.len(),
{
    if outcomes.len() == 0 {
        Seq::empty()
    } else {
        match outcomes.last() {
            Outcome::NotSent { task_id, .. } => unsent(outcomes.drop_last()).push(task_id),
            _ => unsent(outcomes.drop_last()),
        }
    }
}

proof fn lemma_one_more_action(actions: Seq<DispatchActionView>, action: DispatchActionView)
    ensures
        insertions(actions.push(action)) == match action {
            DispatchActionView::InsertTask(row) => insertions(actions).push(row),
            _ => insertions(actions),
        },
        sendings(actions.push(action)) == match action {
            DispatchActionView::SendEvent { event, .. } => sendings(actions).push(event.task_id),
            _ => sendings(actions),
        },
        deletions(actions.push(action)) == match action {
            DispatchActionView::DeleteTask(task_id) => deletions(actions).push(task_id),
            _ => deletions(actions),
        },
        batches(actions.push(action)) == match action {
            DispatchActionView::SaveResults(results) => batches(actions).push(results),
            _ => batches(actions),
        },
{
    assert(actions.push(action).drop_last() =~= actions);
}

/// What one agent's turn adds to the actions before it, but for the action that goes on.
proof fn lemma_actions_of_a_turn(
    actions: Seq<DispatchActionView>,
    run: CrontabRunView,
    uuid: u128,
    outcome: Outcome,
)
    ensures
        ({
            let after = actions + outcome.actions(run, uuid);
            &&& insertions(after) == insertions(actions).push(task_row(run, uuid, outcome.token()))
            &&& sendings(after) == match outcome {
                Outcome::NotInserted { .. } => sendings(actions),
                Outcome::Sent { task_id, .. } => sendings(actions).push(unsigned_of(task_id)),
                Outcome::NotSent { task_id, .. } => sendings(actions).push(unsigned_of(task_id)),
            }
            &&& deletions(after) == match outcome {
                Outcome::NotSent { task_id, .. } => deletions(actions).push(task_id),
                _ => deletions(actions),
            }
            &&& batches(after) == batches(actions)
        }),
{
    let insert = DispatchActionView::InsertTask(task_row(run, uuid, outcome.token()));
    lemma_one_more_action(actions, insert);
    let one = actions.push(insert);
    match outcome {
        Outcome::NotInserted { token, reason, rendered } => {
            let render = DispatchActionView::RenderError(insert_failure(reason));
            lemma_one_more_action(one, render);
            assert(actions + outcome.actions(run, uuid) =~= one.push(render));
        },
        Outcome::Sent { token, task_id } => {
            let send = DispatchActionView::SendEvent {
                uuid,
                event: task_event(run, task_id, token),
            };
            lemma_one_more_action(one, send);
            assert(actions + outcome.actions(run, uuid) =~= one.push(send));
        },
        Outcome::NotSent { token, task_id, reason, rendered } => {
            let send = DispatchActionView::SendEvent {
                uuid,
                event: task_event(run, task_id, token),
            };
            let delete = DispatchActionView::DeleteTask(task_id);
            let render = DispatchActionView::RenderError(send_failure(reason));
            lemma_one_more_action(one, send);
            lemma_one_more_action(one.push(send), delete);
            lemma_one_more_action(one.push(send).push(delete), render);
            assert(actions + outcome.actions(run, uuid) =~= one.push(send).push(delete).push(
                render,
            ));
        },
    }
}

proof fn lemma_actions_of_turns(run: CrontabRunView, outcomes: Seq<Outcome>)
    requires
        run.wf(),
        run.phase is Token,
        run.results.len() == 0,
        0 < outcomes.len() <= run.uuids.len(),
    ensures
        ({
            let actions = play(run, all_events(outcomes)).1;
            &&& insertions(actions) == rows_of(run, outcomes)
            &&& sendings(actions) == recorded(outcomes)
            &&& deletions(actions) == unsent(outcomes)
            &&& batches(actions) == if outcomes.len() == run.uuids.len() {
                seq![results_of(run, outcomes)]
            } else {
                Seq::empty()
            }
        }),
    decreases outcomes.len(),
{
    let earlier = outcomes.drop_last();
    let outcome = outcomes.last();
    lemma_first_turns(run, earlier);
    let (before, actions) = play(run, all_events(earlier));
    if earlier.len() == 0 {
        assert(actions =~= Seq::empty());
        assert(insertions(actions) =~= rows_of(run, earlier));
        assert(sendings(actions) =~= recorded(earlier));
        assert(deletions(actions) =~= unsent(earlier));
        assert(batches(actions) =~= Seq::empty());
    } else {
        lemma_actions_of_turns(run, earlier);
    }
    law_turn_of_an_agent(before, outcome);
    lemma_play_in_parts(run, all_events(earlier), outcome.events());
    let uuid = before.current();
    let last = before.logged(outcome.result(before, uuid)).1;
    let turn = outcome.actions(before, uuid);
    lemma_actions_of_a_turn(actions, before, uuid, outcome);
    lemma_one_more_action(actions + turn, last);
    assert(actions + turn.push(last) =~= (actions + turn).push(last));
    assert(rows_of(run, earlier).push(task_row(before, uuid, outcome.token())) =~= rows_of(
        run,
        outcomes,
    ));
    assert(results_of(run, earlier).push(outcome.result(before, uuid)) =~= results_of(
        run,
        outcomes,
    ));
    assert(Seq::<Seq<CrontabResultView>>::empty().push(results_of(run, outcomes)) =~= seq![
        results_of(run, outcomes),
    ]);
}

/// All that a run over at least one agent does to the database and the agents, whatever becomes of
/// the single tasks: one task is recorded for each agent, in order; exactly the recorded ones are
/// sent, once each; exactly the recorded ones that could not be sent are taken back, once each; and
/// one batch of log entries is recorded, one entry for each agent.
pub proof fn law_actions_of_a_run(
    cron_id: i64,
    cron_name: Seq<char>,
    uuids: Seq<u128>,
    task_type: serde_json::Value,
    run_time: i64,
    outcomes: Seq<Outcome>,
)
    requires
        outcomes.len() == uuids.len(),
        uuids.len() > 0,
    ensures
        ({
            let run = CrontabRunView::begun(cron_id, cron_name, uuids, task_type, run_time).0;
            let actions = play(run, all_events(outcomes)).1;
            &&& insertions(actions) == rows_of(run, outcomes)
            &&& insertions(actions).len() == uuids.len()
            &&& sendings(actions) == recorded(outcomes)
            &&& deletions(actions) == unsent(outcomes)
            &&& batches(actions) == seq![results_of(run, outcomes)]
        }),
{
    lemma_actions_of_turns(
        CrontabRunView::begun(cron_id, cron_name, uuids, task_type, run_time).0,
        outcomes,
    );
}

/// An agent is sent the very task that was recorded for it: the same agent, token and type.
pub proof fn law_sent_task_is_the_recorded_one(
    run: CrontabRunView,
    token: Seq<char>,
    task_id: i64,
)
    requires
        run.phase is Token,
    ensures
        ({
            let (recorded, insert) = run.after(DispatchEventView::TokenDrawn(token));
            let send = recorded.after(DispatchEventView::Inserted(task_id)).1;
            let row = task_row(run, run.current(), token);
            &&& insert == DispatchActionView::InsertTask(row)
            &&& send == (DispatchActionView::SendEvent {
                uuid: row.uuid,
                event: TaskEventView {
                    task_id: unsigned_of(task_id),
                    task_token: row.token,
                    task_event_type: row.task_event_type,
                },
            })
        }),
{
}

/// In every run, a log entry names a task exactly if it reports success, and all entries carry the
/// run's own number, name and moment, whatever the events and their order.
pub proof fn law_results_agree(run: CrontabRunView, event: DispatchEventView)
    requires
        run.wf(),
    ensures
        run.after(event).0.wf(),
        run.after(event).1 matches DispatchActionView::SaveResults(results) ==> {
            &&& results.len() == run.uuids.len()
            &&& forall|i: int|
                0 <= i < results.len() ==> result_agrees(
                    #[trigger] results[i],
                    run.cron_id,
                    run.cron_name,
                    run.run_time,
                )
        },
{
}

/// Whose task is recorded: that of the next agent without a log entry. The record has the drawn token,
/// the name of the schedule as its source and the type of the run, and nothing else yet.
pub proof fn law_recorded_task_is_that_of_the_next_agent(run: CrontabRunView, token: Seq<char>)
    requires
        run.phase is Token,
    ensures
        ({
            let (next, action) = run.after(DispatchEventView::TokenDrawn(token));
            &&& next == CrontabRunView { phase: DispatchPhaseView::Insert { token }, ..run }
            &&& action matches DispatchActionView::InsertTask(row)
            &&& row.uuid == run.uuids[run.results.len() as int]
            &&& row.token == token
            &&& row.cron_source == Some(run.cron_name)
            &&& row.task_event_type == run.task_type
            &&& row.timestamp is None
            &&& row.success is None
            &&& row.error_message is None
            &&& row.task_event_result is None
        }),
{
}

/// What is sent of a task that was recorded: to the same agent, the number of the record as an unsigned
/// number of the same bits, its token and the type of the run. A task that was not recorded is not sent,
/// and the failure says why.
pub proof fn law_sent_task_has_number_and_token_of_the_record(
    run: CrontabRunView,
    task_id: i64,
    reason: Seq<char>,
)
    requires
        run.phase is Insert,
    ensures
        ({
            let (next, action) = run.after(DispatchEventView::Inserted(task_id));
            &&& next == CrontabRunView { phase: DispatchPhaseView::Send { task_id }, ..run }
            &&& action matches DispatchActionView::SendEvent { uuid, event }
            &&& uuid == run.uuids[run.results.len() as int]
            &&& event.task_token == run.phase->Insert_token
            &&& event.task_event_type == run.task_type
            &&& task_id >= 0 ==> event.task_id == task_id
            &&& task_id < 0 ==> event.task_id == task_id + 0x1_0000_0000_0000_0000
        }),
        run.after(DispatchEventView::InsertFailed(reason)) == (
            CrontabRunView { phase: DispatchPhaseView::Render, ..run },
            DispatchActionView::RenderError(
                NodegetErrorView::DatabaseError("Database insert error: "@ + reason),
            ),
        ),
{
}

/// A task that could not be sent is taken back, and then the failure says why.
pub proof fn law_unsent_task_is_taken_back(run: CrontabRunView, reason: Seq<char>)
    requires
        run.phase is Send,
    ensures
        ({
            let (next, action) = run.after(DispatchEventView::SendFailed(reason));
            let error = NodegetErrorView::AgentConnectionError(
                "Error sending task event: "@ + reason,
            );
            &&& next == CrontabRunView { phase: DispatchPhaseView::Rollback { error }, ..run }
            &&& action == DispatchActionView::DeleteTask(run.phase->Send_task_id)
            &&& next.after(DispatchEventView::Deleted) == (
                CrontabRunView { phase: DispatchPhaseView::Render, ..run },
                DispatchActionView::RenderError(error),
            )
        }),
{
}

/// The log entry of an agent: whose schedule and when, whether the task was sent, the number of the
/// task if it was, and a message that names the agent and the number or the failure. With it the next
/// agent has its turn, and behind the last agent all entries are recorded, in order.
pub proof fn law_log_entry_of_an_agent(run: CrontabRunView, rendered: Seq<char>)
    requires
        run.phase is Send || run.phase is Render,
    ensures
        ({
            let sent = run.phase is Send;
            let uuid = run.uuids[run.results.len() as int];
            let entry = CrontabResultView {
                cron_id: run.cron_id,
                cron_name: run.cron_name,
                relative_id: if sent {
                    Some(run.phase->Send_task_id)
                } else {
                    None
                },
                run_time: Some(run.run_time),
                success: Some(sent),
                message: Some(
                    if sent {
                        "任务下发成功，Agent：["@ + uuid_text(uuid) + "]，relative_id："@
                            + int_text(run.phase->Send_task_id as int)
                    } else {
                        "任务下发失败，Agent：["@ + uuid_text(uuid) + "]，错误："@ + rendered
                    },
                ),
            };
            let event = if sent {
                DispatchEventView::Sent
            } else {
                DispatchEventView::Rendered(rendered)
            };
            run.after(event) == if run.results.len() + 1 < run.uuids.len() {
                (
                    CrontabRunView {
                        phase: DispatchPhaseView::Token,
                        results: run.results.push(entry),
                        ..run
                    },
                    DispatchActionView::DrawToken(10),
                )
            } else {
                (
                    CrontabRunView {
                        phase: DispatchPhaseView::Save,
                        results: Seq::empty(),
                        ..run
                    },
                    DispatchActionView::SaveResults(run.results.push(entry)),
                )
            }
        }),
{
}

/// A run starts with a token of ten characters for the first agent, or is over without one, and it is
/// over when its log entries were recorded.
pub proof fn law_start_and_end_of_a_run(
    cron_id: i64,
    cron_name: Seq<char>,
    uuids: Seq<u128>,
    task_type: serde_json::Value,
    run_time: i64,
    run: CrontabRunView,
)
    ensures
        ({
            let (start, action) = CrontabRunView::begun(
                cron_id,
                cron_name,
                uuids,
                task_type,
                run_time,
            );
            &&& start.cron_id == cron_id
            &&& start.cron_name == cron_name
            &&& start.uuids == uuids
            &&& start.task_type == task_type
            &&& start.run_time == run_time
            &&& start.results.len() == 0
            &&& uuids.len() == 0 ==> start.phase is Closed && action is Finish
            &&& uuids.len() > 0 ==> start.phase is Token && action == DispatchActionView::DrawToken(
                10,
            )
        }),
        run.phase is Save ==> run.after(DispatchEventView::Saved) == (
            CrontabRunView { phase: DispatchPhaseView::Closed, ..run },
            DispatchActionView::Finish,
        ),
{
}

/// An event that the run does not wait for changes nothing.
pub proof fn law_other_events_are_ignored(run: CrontabRunView, event: DispatchEventView)
    requires
        match run.phase {
            DispatchPhaseView::Token => !(event is TokenDrawn),
            DispatchPhaseView::Insert { .. } => !(event is Inserted) && !(event is InsertFailed),
            DispatchPhaseView::Send { .. } => !(event is Sent) && !(event is SendFailed),
            DispatchPhaseView::Rollback { .. } => !(event is Deleted),
            DispatchPhaseView::Render => !(event is Rendered),
            DispatchPhaseView::Save => !(event is Saved),
            DispatchPhaseView::Closed => true,
        },
    ensures
        run.after(event) == (run, DispatchActionView::Ignore),
{
}

/// Log entries are recorded one for one and in order, each with all that it holds.
pub proof fn law_entries_are_recorded_as_they_are(results: Seq<CrontabResult>, i: int)
    ensures
        results_view(results).len() == results.len(),
        0 <= i < results.len() ==> {
            &&& results_view(results)[i].cron_id == results[i].cron_id
            &&& results_view(results)[i].cron_name == results[i].cron_name@
            &&& results_view(results)[i].relative_id == results[i].relative_id
            &&& results_view(results)[i].run_time == results[i].run_time
            &&& results_view(results)[i].success == results[i].success
            &&& results_view(results)[i].message is Some <==> results[i].message is Some
            &&& results[i].message matches Some(text) ==> results_view(results)[i].message == Some(
                text@,
            )
        },
{
}

/// What came of an action is taken as it was reported.
pub proof fn law_events_are_taken_as_reported(event: DispatchEvent)
    ensures
        event matches DispatchEvent::TokenDrawn(token) ==> event@ == DispatchEventView::TokenDrawn(
            token@,
        ),
        event matches DispatchEvent::Inserted(task_id) ==> event@ == DispatchEventView::Inserted(
            task_id,
        ),
        event matches DispatchEvent::InsertFailed(reason) ==> event@
            == DispatchEventView::InsertFailed(reason@),
        event matches DispatchEvent::SendFailed(reason) ==> event@ == DispatchEventView::SendFailed(
            reason@,
        ),
        event matches DispatchEvent::Rendered(text) ==> event@ == DispatchEventView::Rendered(
            text@,
        ),
{
}

/// What is to be done is said in full, down to every part of a task that is recorded or sent.
pub proof fn law_actions_are_said_in_full(action: DispatchAction)
    ensures
        action matches DispatchAction::DrawToken(length) ==> action@
            == DispatchActionView::DrawToken(length),
        action matches DispatchAction::InsertTask(row) ==> action@
            == DispatchActionView::InsertTask(row@) && row@.uuid == row.uuid && row@.token
            == row.token@ && row@.timestamp == row.timestamp && row@.success == row.success
            && row@.task_event_type == row.task_event_type && row@.task_event_result
            == row.task_event_result && (row@.cron_source is Some <==> row.cron_source is Some) && (
        row@.error_message is Some <==> row.error_message is Some) && (
        row.cron_source is Some ==> row@.cron_source->0 == row.cron_source->0@) && (
        row.error_message is Some ==> row@.error_message->0 == row.error_message->0@),
        action matches DispatchAction::SendEvent { uuid, event } ==> action@
            == (DispatchActionView::SendEvent {
            uuid,
            event: TaskEventView {
                task_id: event.task_id,
                task_token: event.task_token@,
                task_event_type: event.task_event_type,
            },
        }),
        action matches DispatchAction::DeleteTask(task_id) ==> action@
            == DispatchActionView::DeleteTask(task_id),
        action matches DispatchAction::RenderError(error) ==> action@
            == DispatchActionView::RenderError(error@),
        action matches DispatchAction::SaveResults(results) ==> action@
            == DispatchActionView::SaveResults(results_view(results@)),
{
}

} // verus!
