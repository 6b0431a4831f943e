use nodeget_server::access::{Permission, Scope};
use nodeget_server::monitoring_push::DynamicPushRegistry;
use nodeget_server::rpc::agent::subscription::{
    accepted, Session, SessionAction, SessionEvent, CHANNEL_CAPACITY,
};

fn granted() -> Session {
    let (session, action) = Session::begin();
    assert!(matches!(action, SessionAction::ParseToken));
    let (session, action) = session.step(SessionEvent::TokenParsed);
    match action {
        SessionAction::CheckPermission { scopes, permission } => {
            assert_eq!(scopes, vec![Scope::Global]);
            assert!(matches!(permission, Permission::DynamicMonitoringSummaryRead));
        }
        _ => panic!("no permission is asked for"),
    }
    let (session, action) = session.step(SessionEvent::PermissionChecked(true));
    assert!(matches!(action, SessionAction::Accept));
    session
}

fn receiving(reg_id: u128) -> Session {
    let (session, action) = granted().step(SessionEvent::Accepted { reg_id });
    match action {
        SessionAction::Register { reg_id: id, capacity } => {
            assert_eq!(id, reg_id);
            assert_eq!(capacity, 64);
            assert_eq!(capacity, CHANNEL_CAPACITY);
        }
        _ => panic!("nothing is registered"),
    }
    let (session, action) = session.step(SessionEvent::Registered);
    assert!(matches!(action, SessionAction::Receive));
    session
}

fn assert_leaves(step: (Session, SessionAction), reg_id: u128) {
    let (session, action) = step;
    match action {
        SessionAction::Unregister(id) => assert_eq!(id, reg_id),
        _ => panic!("the registration is not removed"),
    }
    let (session, action) = session.step(SessionEvent::Unregistered);
    assert!(matches!(action, SessionAction::Finish));
    assert_eq!(session, Session::Closed);
    let (session, action) = session.step(SessionEvent::Unregistered);
    assert!(matches!(action, SessionAction::Ignore));
    assert_eq!(session, Session::Closed);
}

#[test]
fn a_token_that_cannot_be_parsed_is_rejected() {
    let (session, action) = Session::begin().0.step(SessionEvent::TokenRefused);
    match action {
        SessionAction::Reject { code, message } => {
            assert_eq!(code, 101);
            assert_eq!(message, "Token Parse Error");
        }
        _ => panic!("not rejected"),
    }
    let (session, action) = session.step(SessionEvent::Accepted { reg_id: 1 });
    assert!(matches!(action, SessionAction::Ignore));
    assert_eq!(session, Session::Closed);
}

#[test]
fn a_token_without_the_permission_is_rejected() {
    let (session, _) = Session::begin().0.step(SessionEvent::TokenParsed);
    let (session, action) = session.step(SessionEvent::PermissionChecked(false));
    match action {
        SessionAction::Reject { code, message } => {
            assert_eq!(code, 102);
            assert_eq!(
                message,
                "Permission Denied: Missing DynamicMonitoringSummary Read permission"
            );
        }
        _ => panic!("not rejected"),
    }
    assert_eq!(session, Session::Closed);
}

#[test]
fn a_permission_that_cannot_be_checked_is_rejected_with_its_failure() {
    let (session, _) = Session::begin().0.step(SessionEvent::TokenParsed);
    let failure = SessionEvent::PermissionFailed { code: 103, message: "no database".to_string() };
    let (session, action) = session.step(failure);
    match action {
        SessionAction::Reject { code, message } => {
            assert_eq!(code, 103);
            assert_eq!(message, "no database");
        }
        _ => panic!("not rejected"),
    }
    assert_eq!(session, Session::Closed);
}

#[test]
fn a_subscription_that_cannot_be_accepted_is_over() {
    let (session, action) = granted().step(SessionEvent::AcceptFailed);
    assert!(matches!(action, SessionAction::PassOn));
    assert_eq!(session, Session::Closed);
}

#[test]
fn summaries_are_sent_one_after_the_other() {
    let mut session = receiving(5);
    for i in 0..3 {
        let text = format!("{{\"n\":{}}}", i);
        let (next, action) = session.step(SessionEvent::Written(text.clone()));
        match action {
            SessionAction::Send(document) => assert_eq!(document, text),
            _ => panic!("not sent"),
        }
        let (next, action) = next.step(SessionEvent::Sent);
        assert!(matches!(action, SessionAction::Receive));
        session = next;
    }
    assert_leaves(session.step(SessionEvent::ChannelClosed), 5);
}

#[test]
fn a_subscriber_that_is_gone_is_removed() {
    let (session, _) = receiving(6).step(SessionEvent::Written("[]".to_string()));
    assert_leaves(session.step(SessionEvent::SendFailed), 6);
}

#[test]
fn a_summary_that_cannot_be_written_ends_the_subscription() {
    assert_leaves(receiving(7).step(SessionEvent::NotWritten), 7);
}

#[test]
fn a_text_that_is_no_json_ends_the_subscription() {
    assert_leaves(receiving(8).step(SessionEvent::Written("{".to_string())), 8);
}

#[test]
fn an_event_out_of_place_changes_nothing() {
    let session = receiving(9);
    let (after, action) = session.step(SessionEvent::TokenRefused);
    assert!(matches!(action, SessionAction::Ignore));
    assert_eq!(after, session);
    let (start, _) = Session::begin();
    let (after, action) = start.step(SessionEvent::Accepted { reg_id: 1 });
    assert!(matches!(action, SessionAction::Ignore));
    assert_eq!(after, start);
}

#[test]
fn registrations_are_random_identifiers() {
    let mut ids: Vec<u128> = Vec::new();
    for _ in 0..100 {
        match accepted() {
            SessionEvent::Accepted { reg_id } => {
                assert_eq!(uuid::Uuid::from_u128(reg_id).get_version_num(), 4);
                ids.push(reg_id);
            }
            _ => panic!("not accepted"),
        }
    }
    ids.sort();
    ids.dedup();
    assert_eq!(ids.len(), 100);
}

#[test]
fn a_subscription_is_one_viewer_while_it_lasts() {
    let mut registry: DynamicPushRegistry<u8, u8, u8> = DynamicPushRegistry::new();
    registry.subscribe(1, 0);
    let (session, action) = granted().step(accepted());
    let registered = match action {
        SessionAction::Register { reg_id, .. } => reg_id,
        _ => panic!("nothing is registered"),
    };
    assert_eq!(registry.subscribe(registered, 1).count.message, 2);
    let (session, _) = session.step(SessionEvent::Registered);
    let (_, action) = session.step(SessionEvent::ChannelClosed);
    match action {
        SessionAction::Unregister(reg_id) => {
            assert_eq!(reg_id, registered);
            assert_eq!(registry.unsubscribe(&reg_id).count.message, 1);
        }
        _ => panic!("the registration is not removed"),
    }
}

#[test]
fn what_was_written_is_sent_as_it_is() {
    let texts = vec![
        "{\"uuid\":\"x\",\"cpu_usage\":1.5,\"boot_time\":null,\"a\":-7}",
        "{}",
        "[1,\"}\",{\"b\":[]}]",
        "\"é\\n\"",
    ];
    let mut session = receiving(3);
    for text in texts {
        let (next, action) = session.step(SessionEvent::Written(text.to_string()));
        assert_eq!(next, Session::Send { reg_id: 3 });
        match action {
            SessionAction::Send(document) => assert_eq!(document, text),
            _ => panic!("not sent"),
        }
        session = next.step(SessionEvent::Sent).0;
    }
}

#[test]
fn summaries_before_a_broken_one_are_sent_in_order() {
    let mut session = receiving(4);
    let mut sent: Vec<String> = Vec::new();
    for text in vec!["1", "2", "oops", "3"] {
        if session != (Session::Receive { reg_id: 4 }) {
            break;
        }
        let (next, action) = session.step(SessionEvent::Written(text.to_string()));
        session = match action {
            SessionAction::Send(document) => {
                sent.push(document);
                next.step(SessionEvent::Sent).0
            }
            _ => next,
        };
    }
    assert_eq!(sent, vec!["1", "2"]);
    assert_eq!(session, Session::Unregister { reg_id: 4 });
}
