use nodeget_server::crontab::task::{CrontabResult, CrontabRun, DispatchAction, DispatchEvent};
use nodeget_server::error::NodegetError;
use serde_json::Value;

fn begin(uuids: Vec<u128>) -> (CrontabRun, DispatchAction) {
    CrontabRun::start(3, "nightly".to_string(), uuids, Value::from("ping"), 1_000)
}

fn insert(run: CrontabRun, uuid: u128) -> CrontabRun {
    let (run, action) = run.step(DispatchEvent::TokenDrawn("abcdefghij".to_string()));
    match action {
        DispatchAction::InsertTask(row) => {
            assert_eq!(row.uuid, uuid);
            assert_eq!(row.token, "abcdefghij");
            assert_eq!(row.cron_source, Some("nightly".to_string()));
            assert_eq!(row.timestamp, None);
            assert_eq!(row.success, None);
            assert_eq!(row.error_message, None);
            assert_eq!(row.task_event_type, Value::from("ping"));
            assert_eq!(row.task_event_result, None);
        }
        _ => panic!("no task is recorded"),
    }
    run
}

fn send(run: CrontabRun, uuid: u128, task_id: i64) -> CrontabRun {
    let (run, action) = run.step(DispatchEvent::Inserted(task_id));
    match action {
        DispatchAction::SendEvent { uuid: to, event } => {
            assert_eq!(to, uuid);
            assert_eq!(event.task_id, task_id as u64);
            assert_eq!(event.task_token, "abcdefghij");
            assert_eq!(event.task_event_type, Value::from("ping"));
        }
        _ => panic!("no task is sent"),
    }
    run
}

fn saved(action: DispatchAction) -> Vec<CrontabResult> {
    match action {
        DispatchAction::SaveResults(results) => results,
        _ => panic!("nothing is recorded"),
    }
}

#[test]
fn a_run_without_agents_is_over_at_once() {
    let (run, action) = begin(vec![]);
    assert!(matches!(action, DispatchAction::Finish));
    assert!(matches!(run.step(DispatchEvent::Saved).1, DispatchAction::Ignore));
}

#[test]
fn a_task_that_was_sent_is_a_success() {
    let (run, action) = begin(vec![1]);
    assert!(matches!(action, DispatchAction::DrawToken(10)));
    let run = send(insert(run, 1), 1, 42);
    let (run, action) = run.step(DispatchEvent::Sent);
    let results = saved(action);
    assert_eq!(results.len(), 1);
    assert_eq!(results[0].cron_id, 3);
    assert_eq!(results[0].cron_name, "nightly");
    assert_eq!(results[0].relative_id, Some(42));
    assert_eq!(results[0].run_time, Some(1_000));
    assert_eq!(results[0].success, Some(true));
    assert_eq!(
        results[0].message.as_deref(),
        Some("任务下发成功，Agent：[00000000-0000-0000-0000-000000000001]，relative_id：42")
    );
    let (run, action) = run.step(DispatchEvent::Saved);
    assert!(matches!(action, DispatchAction::Finish));
    assert!(matches!(run.step(DispatchEvent::Saved).1, DispatchAction::Ignore));
}

#[test]
fn a_task_that_was_not_sent_is_taken_back() {
    let (run, _) = begin(vec![2]);
    let run = send(insert(run, 2), 2, 43);
    let (run, action) = run.step(DispatchEvent::SendFailed("offline".to_string()));
    assert!(matches!(action, DispatchAction::DeleteTask(43)));
    let (run, action) = run.step(DispatchEvent::Deleted);
    match action {
        DispatchAction::RenderError(NodegetError::AgentConnectionError(message)) => {
            assert_eq!(message, "Error sending task event: offline");
        }
        _ => panic!("another failure"),
    }
    let (_, action) = run.step(DispatchEvent::Rendered("agent is offline".to_string()));
    let results = saved(action);
    assert_eq!(results[0].relative_id, None);
    assert_eq!(results[0].success, Some(false));
    assert_eq!(
        results[0].message.as_deref(),
        Some("任务下发失败，Agent：[00000000-0000-0000-0000-000000000002]，错误：agent is offline")
    );
}

#[test]
fn a_task_that_was_not_recorded_is_not_sent() {
    let (run, _) = begin(vec![2]);
    let (run, action) = insert(run, 2).step(DispatchEvent::InsertFailed("full".to_string()));
    match action {
        DispatchAction::RenderError(NodegetError::DatabaseError(message)) => {
            assert_eq!(message, "Database insert error: full");
        }
        _ => panic!("another failure"),
    }
    let (_, action) = run.step(DispatchEvent::Rendered("disk is full".to_string()));
    assert_eq!(saved(action)[0].success, Some(false));
}

#[test]
fn every_agent_has_one_entry_in_order() {
    let (run, _) = begin(vec![7, 8, 9]);
    let run = send(insert(run, 7), 7, 1);
    let (run, action) = run.step(DispatchEvent::Sent);
    assert!(matches!(action, DispatchAction::DrawToken(10)));
    let (run, _) = insert(run, 8).step(DispatchEvent::InsertFailed("full".to_string()));
    let (run, action) = run.step(DispatchEvent::Rendered("full".to_string()));
    assert!(matches!(action, DispatchAction::DrawToken(10)));
    let run = send(insert(run, 9), 9, 2);
    let (_, action) = run.step(DispatchEvent::Sent);
    let results = saved(action);
    let ids: Vec<Option<i64>> = results.iter().map(|r| r.relative_id).collect();
    assert_eq!(ids, vec![Some(1), None, Some(2)]);
    for (result, uuid) in results.iter().zip(vec!["7", "8", "9"]) {
        assert!(result.message.as_ref().unwrap().contains(&format!("00000{}]", uuid)));
        assert_eq!(result.success, Some(result.relative_id.is_some()));
    }
}

#[test]
fn a_negative_number_keeps_its_bits() {
    let (run, _) = begin(vec![1]);
    let run = send(insert(run, 1), 1, -1);
    let (_, action) = run.step(DispatchEvent::Sent);
    assert!(saved(action)[0].message.as_ref().unwrap().ends_with("relative_id：-1"));
}

#[test]
fn an_event_out_of_place_is_ignored() {
    let (run, _) = begin(vec![1]);
    let (run, action) = run.step(DispatchEvent::Sent);
    assert!(matches!(action, DispatchAction::Ignore));
    insert(run, 1);
}

#[test]
fn a_run_now_has_the_present_moment() {
    let before = std::time::SystemTime::now()
        .duration_since(std::time::UNIX_EPOCH)
        .unwrap()
        .as_millis() as i64;
    let (run, _) = CrontabRun::start_now(1, "now".to_string(), vec![1], Value::Null);
    let (run, _) = run.step(DispatchEvent::TokenDrawn("t".to_string()));
    let (run, _) = run.step(DispatchEvent::Inserted(1));
    let (_, action) = run.step(DispatchEvent::Sent);
    let moment = saved(action)[0].run_time.unwrap();
    assert!(before <= moment && moment <= before + 60_000);
}

#[test]
fn a_run_records_each_task_once_and_saves_one_batch() {
    let (mut run, mut action) = begin(vec![1, 2, 3, 4]);
    let mut inserted: Vec<u128> = Vec::new();
    let mut sent: Vec<u128> = Vec::new();
    let mut deleted: Vec<i64> = Vec::new();
    let mut batches: Vec<usize> = Vec::new();
    loop {
        let event = match action {
            DispatchAction::DrawToken(_) => DispatchEvent::TokenDrawn("t".to_string()),
            DispatchAction::InsertTask(row) => {
                inserted.push(row.uuid);
                if row.uuid == 2 {
                    DispatchEvent::InsertFailed("full".to_string())
                } else {
                    DispatchEvent::Inserted(row.uuid as i64 * 10)
                }
            }
            DispatchAction::SendEvent { uuid, event } => {
                assert_eq!(event.task_id, uuid as u64 * 10);
                sent.push(uuid);
                if uuid == 3 {
                    DispatchEvent::SendFailed("offline".to_string())
                } else {
                    DispatchEvent::Sent
                }
            }
            DispatchAction::DeleteTask(task_id) => {
                deleted.push(task_id);
                DispatchEvent::Deleted
            }
            DispatchAction::RenderError(_) => DispatchEvent::Rendered("failed".to_string()),
            DispatchAction::SaveResults(results) => {
                batches.push(results.len());
                DispatchEvent::Saved
            }
            DispatchAction::Finish => break,
            DispatchAction::Ignore => panic!("an event was ignored"),
        };
        (run, action) = run.step(event);
    }
    assert_eq!(inserted, vec![1, 2, 3, 4]);
    assert_eq!(sent, vec![1, 3, 4]);
    assert_eq!(deleted, vec![30]);
    assert_eq!(batches, vec![4]);
}
