//! What a subscription and the registry come to together: one viewer more, and every summary that
//! finds room sent once, in order.
use crate::json::json_document;
use crate::monitoring_push::{law_leaving_undoes_coming, reaches_all, RegistryView};
use crate::rpc::agent::subscription::{
    law_registration_is_removed_once, play, registered, unregistered, Session, SessionActionView,
    SessionEventView, CHANNEL_CAPACITY,
};
use vstd::prelude::*;

verus! {

/// A subscription that is accepted under a fresh identifier is exactly one viewer more: it is
/// registered under that identifier, the other viewers stay, and then it is ready for its first
/// summary. One that cannot be accepted is over and registers nothing.
pub proof fn law_accepted_subscription_is_one_viewer<S, C, V>(
    before: RegistryView<S, C, V>,
    after: RegistryView<S, C, V>,
    reg_id: u128,
    tx: S,
    other: u128,
)
    requires
        before.subscribers.dom().finite(),
        !before.subscribers.contains_key(reg_id),
        after.has_viewers(before, before.subscribers.insert(reg_id, tx)),
    ensures
        Session::Accept.after(SessionEventView::Accepted { reg_id }).1 == (
        SessionActionView::Register { reg_id, capacity: CHANNEL_CAPACITY }),
        Session::Accept.after(SessionEventView::Accepted { reg_id }).0.after(
            SessionEventView::Registered,
        ) == (LiveSubscription::fresh(reg_id).session, SessionActionView::Receive),
        after.subscribers.len() == before.subscribers.len() + 1,
        after.subscribers.contains_pair(reg_id, tx),
        other != reg_id ==> {
            &&& after.subscribers.contains_key(other) == before.subscribers.contains_key(other)
            &&& after.subscribers[other] == before.subscribers[other]
        },
        Session::Accept.after(SessionEventView::AcceptFailed) == (
            Session::Closed,
            SessionActionView::PassOn,
        ),
{
}

/// A subscription that is over has left the registry: what it registered it has removed, under the
/// same identifier, and with that the viewers are those from before it came.
pub proof fn law_ended_subscription_is_no_viewer<S, C, V>(
    events: Seq<SessionEventView>,
    before: RegistryView<S, C, V>,
    between: RegistryView<S, C, V>,
    after: RegistryView<S, C, V>,
    reg_id: u128,
    tx: S,
)
    requires
        play(events).0 == Session::Closed,
        registered(play(events).1) == seq![reg_id],
        before.subscribers.dom().finite(),
        !before.subscribers.contains_key(reg_id),
        between.has_viewers(before, before.subscribers.insert(reg_id, tx)),
        after.has_viewers(between, between.subscribers.remove(reg_id)),
    ensures
        unregistered(play(events).1) == seq![reg_id],
        after.subscribers == before.subscribers,
{
    law_registration_is_removed_once(events);
    law_leaving_undoes_coming(before, between, after, reg_id, tx);
}

/// Every summary that is sent to the viewers goes into the channel of a registered one exactly once.
pub proof fn law_viewer_is_reached_once<S>(
    targets: Seq<(u128, &S)>,
    subscribers: Map<u128, S>,
    reg_id: u128,
    tx: S,
)
    requires
        reaches_all(targets, subscribers),
        subscribers.contains_pair(reg_id, tx),
    ensures
        exists|i: int|
            0 <= i < targets.len() && (#[trigger] targets[i]).0 == reg_id && *targets[i].1 == tx,
        forall|i: int, j: int|
            0 <= i < targets.len() && 0 <= j < targets.len() && (#[trigger] targets[i]).0 == reg_id
                && (#[trigger] targets[j]).0 == reg_id ==> i == j,
{
    assert(subscribers.contains_key(reg_id));
    let i = choose|i: int| 0 <= i < targets.len() && (#[trigger] targets[i]).0 == reg_id;
    assert(subscribers.contains_pair(targets[i].0, *targets[i].1));
}

/// What happens to a registered subscription.
pub enum LiveChange {
    /// A summary is sent to the viewers, with this text.
    Broadcast(Seq<char>),
    /// The next summary is taken from the channel and sent to the subscriber.
    Forward,
}

/// A registered subscription with its channel, and what came of the summaries.
pub struct LiveSubscription {
    pub session: Session,
    /// The summaries that wait in the channel.
    pub queue: Seq<Seq<char>>,
    /// The summaries that found room in the channel, in order.
    pub accepted: Seq<Seq<char>>,
    /// The documents that were sent to the subscriber, in order.
    pub sent: Seq<Seq<char>>,
}

/// The document of a text.
pub open spec fn document(text: Seq<char>) -> Seq<char> {
    json_document(text)->Ok_0
}

/// The documents of texts, in order.
pub open spec fn documents(texts: Seq<Seq<char>>) -> Seq<Seq<char>> {
    texts.map_values(|text: Seq<char>| document(text))
}

impl LiveSubscription {
    /// A subscription that was just registered.
    pub open spec fn fresh(reg_id: u128) -> LiveSubscription {
        LiveSubscription {
            session: Session::Receive { reg_id },
            queue: Seq::empty(),
            accepted: Seq::empty(),
            sent: Seq::empty(),
        }
    }

    /// Whether a summary finds room.
    pub open spec fn has_room(self) -> bool {
        self.queue.len() < CHANNEL_CAPACITY
    }

    /// The subscription after a change. A summary that finds no room is dropped. Without a waiting
    /// summary there is nothing to send, and a subscription that is about to end takes none.
    pub open spec fn after(self, change: LiveChange) -> LiveSubscription {
        match change {
            LiveChange::Broadcast(text) => if self.has_room() {
                LiveSubscription {
                    queue: self.queue.push(text),
                    accepted: self.accepted.push(text),
                    ..self
                }
            } else {
                self
            },
            LiveChange::Forward => if self.queue.len() == 0 || !(self.session is Receive) {
                self
            } else {
                let (session, action) = self.session.after(
                    SessionEventView::Written(self.queue.first()),
                );
                let taken = LiveSubscription { session, queue: self.queue.drop_first(), ..self };
                match action {
                    SessionActionView::Send(text) => LiveSubscription {
                        session: session.after(SessionEventView::Sent).0,
                        sent: self.sent.push(text),
                        ..taken
                    },
                    _ => taken,
                }
            },
        }
    }

    /// The subscription after changes, one after the other.
    pub open spec fn ran(self, changes: Seq<LiveChange>) -> LiveSubscription
        decreases changes.len(),
    {
        if changes.len() == 0 {
            self
        } else {
            self.ran(changes.drop_last()).after(changes.last())
        }
    }

    /// Whether every summary finds room.
    pub open spec fn never_full(self, changes: Seq<LiveChange>) -> bool
        decreases changes.len(),
    {
        changes.len() > 0 ==> {
            &&& self.never_full(changes.drop_last())
            &&& changes.last() is Broadcast ==> self.ran(changes.drop_last()).has_room()
        }
    }
}

/// The texts of the summaries that are sent to the viewers, in order.
pub open spec fn broadcasts(changes: Seq<LiveChange>) -> Seq<Seq<char>>
    decreases changes.len(),
{
    if changes.len() == 0 {
        Seq::empty()
    } else {
        match changes.last() {
            LiveChange::Broadcast(text) => broadcasts(changes.drop_last()).push(text),
            LiveChange::Forward => broadcasts(changes.drop_last()),
        }
    }
}

/// What holds of a subscription all along: it has sent the documents of the first summaries that
/// found room, and either waits for the next one or is about to end on one that is no document.
spec fn stays_true(live: LiveSubscription, reg_id: u128) -> bool {
    let n = live.sent.len() as int;
    &&& n <= live.accepted.len()
    &&& live.queue.len() <= CHANNEL_CAPACITY
    &&& live.sent == documents(live.accepted.take(n))
    &&& forall|i: int| 0 <= i < n ==> json_document(#[trigger] live.accepted[i]) is Ok
    &&& match live.session {
        Session::Receive { reg_id: id } => id == reg_id && live.queue == live.accepted.skip(n),
        Session::Unregister { reg_id: id } => {
            &&& id == reg_id
            &&& n < live.accepted.len()
            &&& json_document(live.accepted[n]) is Err
        },
        _ => false,
    }
}

proof fn lemma_live(reg_id: u128, changes: Seq<LiveChange>)
    ensures
        stays_true(LiveSubscription::fresh(reg_id).ran(changes), reg_id),
        LiveSubscription::fresh(reg_id).never_full(changes) ==> LiveSubscription::fresh(
            reg_id,
        ).ran(changes).accepted == broadcasts(changes),
    decreases changes.len(),
{
    let start = LiveSubscription::fresh(reg_id);
    if changes.len() == 0 {
        assert(start.sent =~= documents(start.accepted.take(0)));
        assert(start.queue =~= start.accepted.skip(0));
    } else {
        lemma_live(reg_id, changes.drop_last());
        let before = start.ran(changes.drop_last());
        let after = start.ran(changes);
        let n = before.sent.len() as int;
        match changes.last() {
            LiveChange::Broadcast(text) => {
                if before.has_room() {
                    assert(after.accepted.take(n) =~= before.accepted.take(n));
                    assert(after.accepted.skip(n) =~= before.accepted.skip(n).push(text));
                    assert(forall|i: int|
                        0 <= i < before.accepted.len() ==> #[trigger] after.accepted[i]
                            == before.accepted[i]);
                }
            },
            LiveChange::Forward => {
                if before.queue.len() > 0 && before.session is Receive {
                    let first = before.queue.first();
                    assert(first == before.accepted[n]);
                    if json_document(first) is Ok {
                        assert(after.sent =~= documents(after.accepted.take(n + 1)));
                        assert(after.queue =~= after.accepted.skip(n + 1));
                    }
                }
            },
        }
    }
}

/// Whatever is sent to the viewers, the summaries that find room in the channel are sent to the
/// subscriber once each, in the order in which they came, as their documents, with none left out
/// before another: what was sent are the documents of the first of them. As long as the subscription
/// is ready for the next one, the others wait in the channel, not more than it holds; it is no longer
/// ready exactly if the next one turned out to be no document, and then it is about to remove its
/// registration. Where the channel is never full, every summary finds room. A text that is its own
/// document is sent as it is.
pub proof fn law_summaries_are_sent_once_in_order(reg_id: u128, changes: Seq<LiveChange>)
    ensures
        ({
            let live = LiveSubscription::fresh(reg_id).ran(changes);
            let n = live.sent.len() as int;
            &&& n <= live.accepted.len()
            &&& live.sent == documents(live.accepted.take(n))
            &&& live.queue.len() <= CHANNEL_CAPACITY
            &&& live.session == (Session::Receive { reg_id }) || live.session == (
            Session::Unregister { reg_id })
            &&& live.session is Receive ==> live.queue == live.accepted.skip(n)
            &&& live.session is Unregister ==> n < live.accepted.len() && json_document(
                live.accepted[n],
            ) is Err
            &&& LiveSubscription::fresh(reg_id).never_full(changes) ==> live.accepted
                == broadcasts(changes)
            &&& (forall|i: int|
                0 <= i < live.accepted.len() ==> json_document(#[trigger] live.accepted[i]) == Ok::<
                    Seq<char>,
                    Seq<char>,
                >(live.accepted[i])) ==> live.session is Receive && live.sent
                == live.accepted.take(n)
        }),
{
    lemma_live(reg_id, changes);
    let live = LiveSubscription::fresh(reg_id).ran(changes);
    let n = live.sent.len() as int;
    if forall|i: int|
        0 <= i < live.accepted.len() ==> json_document(#[trigger] live.accepted[i]) == Ok::<
            Seq<char>,
            Seq<char>,
        >(live.accepted[i]) {
        assert(live.sent =~= live.accepted.take(n)) by {
            assert forall|i: int| 0 <= i < n implies live.sent[i] == live.accepted[i] by {
                assert(live.accepted.take(n)[i] == live.accepted[i]);
                assert(json_document(live.accepted[i]) == Ok::<Seq<char>, Seq<char>>(
                    live.accepted[i],
                ));
            }
        }
        if n < live.accepted.len() {
            assert(json_document(live.accepted[n]) == Ok::<Seq<char>, Seq<char>>(live.accepted[n]));
        }
    }
}

} // verus!
