//! One subscription to the summaries of all agents, from the request to the last message.
use crate::access::{Permission, PermissionView, Scope};
use crate::agent_id::{fresh_id, is_random_id};
use crate::json::{is_compact, json_document, read_document};
use vstd::prelude::*;
use vstd::string::*;

verus! {

/// How many summaries wait for one subscriber at most.
pub const CHANNEL_CAPACITY: usize = 64;

/// What a subscriber without a readable token is answered.
pub const TOKEN_REJECTION: (i32, &'static str) = (101, "Token Parse Error");

/// What a subscriber without the permission is answered.
pub const PERMISSION_REJECTION: (i32, &'static str) = (
    102,
    "Permission Denied: Missing DynamicMonitoringSummary Read permission",
);

/// What is to be done next.
pub enum SessionAction {
    /// Parse the subscriber's token.
    ParseToken,
    /// Ask whether the token has the permission in all of the scopes.
    CheckPermission { scopes: Vec<Scope>, permission: Permission },
    /// Reject the subscription; it is over.
    Reject { code: i32, message: String },
    /// Accept the subscription.
    Accept,
    /// Open a channel and register its sending end.
    Register { reg_id: u128, capacity: usize },
    /// Wait for the next summary of the channel, and write it as JSON.
    Receive,
    /// Send a JSON document to the subscriber.
    Send(String),
    /// Remove the registration.
    Unregister(u128),
    /// The subscription is over.
    Finish,
    /// The subscription is over, with the failure that was reported.
    PassOn,
    /// The event does not belong here; nothing is to be done.
    Ignore,
}

/// What came of an action.
pub enum SessionEvent {
    TokenParsed,
    TokenRefused,
    PermissionChecked(bool),
    /// The permission could not be checked.
    PermissionFailed { code: i32, message: String },
    /// The subscription was accepted; this identifier is for its registration.
    Accepted { reg_id: u128 },
    AcceptFailed,
    Registered,
    /// A summary came and was written.
    Written(String),
    /// A summary came and could not be written.
    NotWritten,
    /// No more summaries will come.
    ChannelClosed,
    Sent,
    SendFailed,
    Unregistered,
}

pub enum SessionActionView {
    ParseToken,
    CheckPermission { scopes: Seq<Scope>, permission: PermissionView },
    Reject { code: i32, message: Seq<char> },
    Accept,
    Register { reg_id: u128, capacity: usize },
    Receive,
    Send(Seq<char>),
    Unregister(u128),
    Finish,
    PassOn,
    Ignore,
}

pub enum SessionEventView {
    TokenParsed,
    TokenRefused,
    PermissionChecked(bool),
    PermissionFailed { code: i32, message: Seq<char> },
    Accepted { reg_id: u128 },
    AcceptFailed,
    Registered,
    Written(Seq<char>),
    NotWritten,
    ChannelClosed,
    Sent,
    SendFailed,
    Unregistered,
}

impl View for SessionAction {
    type V = SessionActionView;

    open spec fn view(&self) -> SessionActionView {
        match self {
            SessionAction::ParseToken => SessionActionView::ParseToken,
            SessionAction::CheckPermission { scopes, permission } => SessionActionView::CheckPermission {
                scopes: scopes@,
                permission: permission@,
            },
            SessionAction::Reject { code, message } => SessionActionView::Reject {
                code: *code,
                message: message@,
            },
            SessionAction::Accept => SessionActionView::Accept,
            SessionAction::Register { reg_id, capacity } => SessionActionView::Register {
                reg_id: *reg_id,
                capacity: *capacity,
            },
            SessionAction::Receive => SessionActionView::Receive,
            SessionAction::Send(text) => SessionActionView::Send(text@),
            SessionAction::Unregister(reg_id) => SessionActionView::Unregister(*reg_id),
            SessionAction::Finish => SessionActionView::Finish,
            SessionAction::PassOn => SessionActionView::PassOn,
            SessionAction::Ignore => SessionActionView::Ignore,
        }
    }
}

impl View for SessionEvent {
    type V = SessionEventView;

    open spec fn view(&self) -> SessionEventView {
        match self {
            SessionEvent::TokenParsed => SessionEventView::TokenParsed,
            SessionEvent::TokenRefused => SessionEventView::TokenRefused,
            SessionEvent::PermissionChecked(allowed) => SessionEventView::PermissionChecked(*allowed),
            SessionEvent::PermissionFailed { code, message } => SessionEventView::PermissionFailed {
                code: *code,
                message: message@,
            },
            SessionEvent::Accepted { reg_id } => SessionEventView::Accepted { reg_id: *reg_id },
            SessionEvent::AcceptFailed => SessionEventView::AcceptFailed,
            SessionEvent::Registered => SessionEventView::Registered,
            SessionEvent::Written(text) => SessionEventView::Written(text@),
            SessionEvent::NotWritten => SessionEventView::NotWritten,
            SessionEvent::ChannelClosed => SessionEventView::ChannelClosed,
            SessionEvent::Sent => SessionEventView::Sent,
            SessionEvent::SendFailed => SessionEventView::SendFailed,
            SessionEvent::Unregistered => SessionEventView::Unregistered,
        }
    }
}

/// What a subscription waits for.
#[derive(Clone, Copy, Debug, PartialEq, Eq, Structural)]
pub enum Session {
    Token,
    Permission,
    Accept,
    Register { reg_id: u128 },
    Receive { reg_id: u128 },
    Send { reg_id: u128 },
    Unregister { reg_id: u128 },
    Closed,
}

impl Session {
    /// The subscription with its registration to be removed.
    pub open spec fn leaving(reg_id: u128) -> (Session, SessionActionView) {
        (Session::Unregister { reg_id }, SessionActionView::Unregister(reg_id))
    }

    /// The subscription after an event, and the action that follows. An event that it does not wait
    /// for changes nothing.
    pub open spec fn after(self, event: SessionEventView) -> (Session, SessionActionView) {
        match (self, event) {
            (Session::Token, SessionEventView::TokenRefused) => (
                Session::Closed,
                SessionActionView::Reject {
                    code: TOKEN_REJECTION.0,
                    message: TOKEN_REJECTION.1@,
                },
            ),
            (Session::Token, SessionEventView::TokenParsed) => (
                Session::Permission,
                SessionActionView::CheckPermission {
                    scopes: seq![Scope::Global],
                    permission: PermissionView::DynamicMonitoringSummaryRead,
                },
            ),
            (Session::Permission, SessionEventView::PermissionChecked(allowed)) => if allowed {
                (Session::Accept, SessionActionView::Accept)
            } else {
                (
                    Session::Closed,
                    SessionActionView::Reject {
                        code: PERMISSION_REJECTION.0,
                        message: PERMISSION_REJECTION.1@,
                    },
                )
            },
            (Session::Permission, SessionEventView::PermissionFailed { code, message }) => (
                Session::Closed,
                SessionActionView::Reject { code, message },
            ),
            (Session::Accept, SessionEventView::AcceptFailed) => (
                Session::Closed,
                SessionActionView::PassOn,
            ),
            (Session::Accept, SessionEventView::Accepted { reg_id }) => (
                Session::Register { reg_id },
                SessionActionView::Register { reg_id, capacity: CHANNEL_CAPACITY },
            ),
            (Session::Register { reg_id }, SessionEventView::Registered) => (
                Session::Receive { reg_id },
                SessionActionView::Receive,
            ),
            (Session::Receive { reg_id }, SessionEventView::Written(text)) => match json_document(
                text,
            ) {
                Ok(document) => (Session::Send { reg_id }, SessionActionView::Send(document)),
                Err(_) => Session::leaving(reg_id),
            },
            (Session::Receive { reg_id }, SessionEventView::NotWritten) => Session::leaving(reg_id),
            (Session::Receive { reg_id }, SessionEventView::ChannelClosed) => Session::leaving(
                reg_id,
            ),
            (Session::Send { reg_id }, SessionEventView::Sent) => (
                Session::Receive { reg_id },
                SessionActionView::Receive,
            ),
            (Session::Send { reg_id }, SessionEventView::SendFailed) => Session::leaving(reg_id),
            (Session::Unregister { reg_id }, SessionEventView::Unregistered) => (
                Session::Closed,
                SessionActionView::Finish,
            ),
            _ => (self, SessionActionView::Ignore),
        }
    }

    /// Starts a subscription.
    pub fn begin() -> (r: (Session, SessionAction))
        ensures
            (r.0, r.1@) == (Session::Token, SessionActionView::ParseToken),
    {
        (Session::Token, SessionAction::ParseToken)
    }

    /// Takes an event and says what is to be done next. What was written is sent as it is.
    pub fn step(self, event: SessionEvent) -> (r: (Session, SessionAction))
        ensures
            (r.0, r.1@) == self.after(event@),
            match (self, event@) {
                (Session::Receive { reg_id }, SessionEventView::Written(text)) => is_compact(text)
                    ==> (r.0, r.1@) == (Session::Send { reg_id }, SessionActionView::Send(text)),
                _ => true,
            },
    {
        match (self, event) {
            (Session::Token, SessionEvent::TokenRefused) => (
                Session::Closed,
                SessionAction::Reject {
                    code: TOKEN_REJECTION.0,
                    message: TOKEN_REJECTION.1.to_owned(),
                },
            ),
            (Session::Token, SessionEvent::TokenParsed) => {
                let scopes: Vec<Scope> = vec![Scope::Global];
                assert(scopes@ =~= seq![Scope::Global]);
                (
                    Session::Permission,
                    SessionAction::CheckPermission {
                        scopes,
                        permission: Permission::DynamicMonitoringSummaryRead,
                    },
                )
            },
            (Session::Permission, SessionEvent::PermissionChecked(allowed)) => if allowed {
                (Session::Accept, SessionAction::Accept)
            } else {
                (
                    Session::Closed,
                    SessionAction::Reject {
                        code: PERMISSION_REJECTION.0,
                        message: PERMISSION_REJECTION.1.to_owned(),
                    },
                )
            },
            (Session::Permission, SessionEvent::PermissionFailed { code, message }) => (
                Session::Closed,
                SessionAction::Reject { code, message },
            ),
            (Session::Accept, SessionEvent::AcceptFailed) => (
                Session::Closed,
                SessionAction::PassOn,
            ),
            (Session::Accept, SessionEvent::Accepted { reg_id }) => (
                Session::Register { reg_id },
                SessionAction::Register { reg_id, capacity: CHANNEL_CAPACITY },
            ),
            (Session::Register { reg_id }, SessionEvent::Registered) => (
                Session::Receive { reg_id },
                SessionAction::Receive,
            ),
            (Session::Receive { reg_id }, SessionEvent::Written(text)) => match read_document(text) {
                Ok(document) => (Session::Send { reg_id }, SessionAction::Send(document)),
                Err(_) => (Session::Unregister { reg_id }, SessionAction::Unregister(reg_id)),
            },
            (Session::Receive { reg_id }, SessionEvent::NotWritten) => (
                Session::Unregister { reg_id },
                SessionAction::Unregister(reg_id),
            ),
            (Session::Receive { reg_id }, SessionEvent::ChannelClosed) => (
                Session::Unregister { reg_id },
                SessionAction::Unregister(reg_id),
            ),
            (Session::Send { reg_id }, SessionEvent::Sent) => (
                Session::Receive { reg_id },
                SessionAction::Receive,
            ),
            (Session::Send { reg_id }, SessionEvent::SendFailed) => (
                Session::Unregister { reg_id },
                SessionAction::Unregister(reg_id),
            ),
            (Session::Unregister { reg_id: _ }, SessionEvent::Unregistered) => (
                Session::Closed,
                SessionAction::Finish,
            ),
            _ => (self, SessionAction::Ignore),
        }
    }
}

/// The event of an accepted subscription, with a fresh identifier for its registration.
pub fn accepted() -> (event: SessionEvent)
    ensures
        event matches SessionEvent::Accepted { reg_id } && is_random_id(reg_id),
{
    SessionEvent::Accepted { reg_id: fresh_id() }
}

/// The subscription after the events, one after the other, and the actions that they led to.
pub open spec fn play(events: Seq<SessionEventView>) -> (Session, Seq<SessionActionView>)
    decreases events.len(),
{
    if events.len() == 0 {
        (Session::Token, seq![SessionActionView::ParseToken])
    } else {
        let (before, actions) = play(events.drop_last());
        let (after, action) = before.after(events.last());
        (after, actions.push(action))
    }
}

/// The identifiers that the actions register, in order.
pub open spec fn registered(actions: Seq<SessionActionView>) -> Seq<u128>
    decreases actions.len(),
{
    if actions.len() == 0 {
        Seq::empty()
    } else {
        match actions.last() {
            SessionActionView::Register { reg_id, .. } => registered(actions.drop_last()).push(
                reg_id,
            ),
            _ => registered(actions.drop_last()),
        }
    }
}

/// The identifiers whose registration the actions remove, in order.
pub open spec fn unregistered(actions: Seq<SessionActionView>) -> Seq<u128>
    decreases actions.len(),
{
    if actions.len() == 0 {
        Seq::empty()
    } else {
        match actions.last() {
            SessionActionView::Unregister(reg_id) => unregistered(actions.drop_last()).push(reg_id),
            _ => unregistered(actions.drop_last()),
        }
    }
}

proof fn lemma_registrations(events: Seq<SessionEventView>)
    ensures
        ({
            let (session, actions) = play(events);
            let none = Seq::<u128>::empty();
            match session {
                Session::Token | Session::Permission | Session::Accept => registered(actions)
                    == none && unregistered(actions) == none,
                Session::Register { reg_id } | Session::Receive { reg_id } | Session::Send {
                    reg_id,
                } => registered(actions) == seq![reg_id] && unregistered(actions) == none,
                Session::Unregister { reg_id } => registered(actions) == seq![reg_id]
                    && unregistered(actions) == seq![reg_id],
                Session::Closed => registered(actions) == unregistered(actions) && registered(
                    actions,
                ).len() <= 1,
            }
        }),
    decreases events.len(),
{
    if events.len() == 0 {
        let first = seq![SessionActionView::ParseToken];
        reveal_with_fuel(registered, 2);
        reveal_with_fuel(unregistered, 2);
        assert(registered(first) =~= Seq::empty());
        assert(unregistered(first) =~= Seq::empty());
    } else {
        lemma_registrations(events.drop_last());
        let (before, actions) = play(events.drop_last());
        let action = before.after(events.last()).1;
        assert(actions.push(action).drop_last() =~= actions);
        assert forall|id: u128| Seq::<u128>::empty().push(id) == seq![id] by {
            assert(Seq::<u128>::empty().push(id) =~= seq![id]);
        }
    }
}

/// Whatever happens, a subscription registers at most once, removes nothing that it did not
/// register, and when it is over it has removed what it registered, exactly once.
pub proof fn law_registration_is_removed_once(events: Seq<SessionEventView>)
    ensures
        registered(play(events).1).len() <= 1,
        unregistered(play(events).1).is_prefix_of(registered(play(events).1)),
        play(events).0 == Session::Closed ==> unregistered(play(events).1) == registered(
            play(events).1,
        ),
{
    lemma_registrations(events);
}

proof fn lemma_permitted_before_accept(events: Seq<SessionEventView>)
    ensures
        ({
            let session = play(events).0;
            session == Session::Token || session == Session::Permission || session
                == Session::Closed || events.contains(SessionEventView::PermissionChecked(true))
        }),
    decreases events.len(),
{
    if events.len() > 0 {
        let earlier = events.drop_last();
        lemma_permitted_before_accept(earlier);
        let checked = SessionEventView::PermissionChecked(true);
        if earlier.contains(checked) {
            let i = earlier.index_of(checked);
            assert(events[i] == checked);
        }
        if events.last() == checked {
            assert(events[events.len() - 1] == checked);
        }
    }
}

/// A subscription is not accepted, registered or sent anything before the permission was checked
/// and granted.
pub proof fn law_no_summaries_without_permission(
    events: Seq<SessionEventView>,
    event: SessionEventView,
)
    requires
        ({
            let action = play(events).0.after(event).1;
            action is Accept || action is Register || action is Receive || action is Send
        }),
    ensures
        events.push(event).contains(SessionEventView::PermissionChecked(true)),
{
    let checked = SessionEventView::PermissionChecked(true);
    lemma_permitted_before_accept(events);
    if events.contains(checked) {
        let i = events.index_of(checked);
        assert(events.push(event)[i] == checked);
    } else {
        assert(events.push(event)[events.len() as int] == checked);
    }
}

/// A rejected subscription is over: nothing is registered for it, before or after.
pub proof fn law_rejected_is_never_registered(
    events: Seq<SessionEventView>,
    event: SessionEventView,
    later: SessionEventView,
)
    requires
        play(events).0.after(event).1 is Reject,
    ensures
        registered(play(events).1).len() == 0,
        play(events).0.after(event).0.after(later) == (Session::Closed, SessionActionView::Ignore),
{
    lemma_registrations(events);
}

/// A subscriber needs the permission to read the summaries everywhere. Without a readable token or the
/// permission it is rejected with a code and a message of its own, and where the permission could not
/// be checked with what was reported.
pub proof fn law_who_may_subscribe(code: i32, message: Seq<char>)
    ensures
        Session::Token.after(SessionEventView::TokenParsed) == (
            Session::Permission,
            SessionActionView::CheckPermission {
                scopes: seq![Scope::Global],
                permission: PermissionView::DynamicMonitoringSummaryRead,
            },
        ),
        Session::Token.after(SessionEventView::TokenRefused) == (
            Session::Closed,
            SessionActionView::Reject { code: 101, message: "Token Parse Error"@ },
        ),
        Session::Permission.after(SessionEventView::PermissionChecked(true)) == (
            Session::Accept,
            SessionActionView::Accept,
        ),
        Session::Permission.after(SessionEventView::PermissionChecked(false)) == (
            Session::Closed,
            SessionActionView::Reject {
                code: 102,
                message: "Permission Denied: Missing DynamicMonitoringSummary Read permission"@,
            },
        ),
        Session::Permission.after(SessionEventView::PermissionFailed { code, message }) == (
            Session::Closed,
            SessionActionView::Reject { code, message },
        ),
{
}

/// An accepted subscriber is registered under the identifier that was drawn for it, with room for
/// sixty-four summaries, and under no other one waits for summaries, sends them and leaves: it waits
/// for the next summary after each that was sent, and leaves with the first that could not be written
/// or sent, or when no more will come.
pub proof fn law_subscriber_stays_until_something_fails(reg_id: u128, text: Seq<char>)
    ensures
        Session::Accept.after(SessionEventView::Accepted { reg_id }) == (
            Session::Register { reg_id },
            SessionActionView::Register { reg_id, capacity: 64 },
        ),
        Session::Accept.after(SessionEventView::AcceptFailed) == (
            Session::Closed,
            SessionActionView::PassOn,
        ),
        (Session::Register { reg_id }).after(SessionEventView::Registered) == (
            Session::Receive { reg_id },
            SessionActionView::Receive,
        ),
        json_document(text) is Ok ==> (Session::Receive { reg_id }).after(
            SessionEventView::Written(text),
        ) == (Session::Send { reg_id }, SessionActionView::Send(json_document(text)->Ok_0)),
        json_document(text) is Err ==> (Session::Receive { reg_id }).after(
            SessionEventView::Written(text),
        ) == (Session::Unregister { reg_id }, SessionActionView::Unregister(reg_id)),
        (Session::Receive { reg_id }).after(SessionEventView::NotWritten) == (
            Session::Unregister { reg_id },
            SessionActionView::Unregister(reg_id),
        ),
        (Session::Receive { reg_id }).after(SessionEventView::ChannelClosed) == (
            Session::Unregister { reg_id },
            SessionActionView::Unregister(reg_id),
        ),
        (Session::Send { reg_id }).after(SessionEventView::Sent) == (
            Session::Receive { reg_id },
            SessionActionView::Receive,
        ),
        (Session::Send { reg_id }).after(SessionEventView::SendFailed) == (
            Session::Unregister { reg_id },
            SessionActionView::Unregister(reg_id),
        ),
        (Session::Unregister { reg_id }).after(SessionEventView::Unregistered) == (
            Session::Closed,
            SessionActionView::Finish,
        ),
{
}

/// An event that the subscription does not wait for changes nothing.
pub proof fn law_other_events_are_ignored(session: Session, event: SessionEventView)
    requires
        match session {
            Session::Token => !(event is TokenParsed) && !(event is TokenRefused),
            Session::Permission => !(event is PermissionChecked) && !(event is PermissionFailed),
            Session::Accept => !(event is Accepted) && !(event is AcceptFailed),
            Session::Register { .. } => !(event is Registered),
            Session::Receive { .. } => !(event is Written) && !(event is NotWritten) && !(
            event is ChannelClosed),
            Session::Send { .. } => !(event is Sent) && !(event is SendFailed),
            Session::Unregister { .. } => !(event is Unregistered),
            Session::Closed => true,
        },
    ensures
        session.after(event) == (session, SessionActionView::Ignore),
{
}

/// What came of an action is taken as it was reported, and what is to be done is said in full.
pub proof fn law_events_and_actions_in_full(event: SessionEvent, action: SessionAction)
    ensures
        event matches SessionEvent::PermissionChecked(allowed) ==> event@
            == SessionEventView::PermissionChecked(allowed),
        event matches SessionEvent::PermissionFailed { code, message } ==> event@
            == (SessionEventView::PermissionFailed { code, message: message@ }),
        event matches SessionEvent::Accepted { reg_id } ==> event@ == (SessionEventView::Accepted {
            reg_id,
        }),
        event matches SessionEvent::Written(text) ==> event@ == SessionEventView::Written(text@),
        action matches SessionAction::CheckPermission { scopes, permission } ==> action@
            == (SessionActionView::CheckPermission { scopes: scopes@, permission: permission@ }),
        action matches SessionAction::Reject { code, message } ==> action@
            == (SessionActionView::Reject { code, message: message@ }),
        action matches SessionAction::Register { reg_id, capacity } ==> action@
            == (SessionActionView::Register { reg_id, capacity }),
        action matches SessionAction::Send(text) ==> action@ == SessionActionView::Send(text@),
        action matches SessionAction::Unregister(reg_id) ==> action@
            == SessionActionView::Unregister(reg_id),
{
}

} // verus!
