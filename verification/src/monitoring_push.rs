//! Who is sent what, live: summaries of agents, the number of viewers, and visitor statistics.
//!
//! The registry decides; the messages are put into the subscribers' channels from outside. What does
//! not fit into a channel is dropped there, and the next message makes up for it.
use crate::agent_id::{id_text, uuid_text};
use crate::json::{clone_value, insert_number, is_object, json_members};
use crate::text::int_text;
use std::collections::HashMap;
use vstd::prelude::*;
use vstd::std_specs::iter::IteratorSpec;

verus! {

broadcast use vstd::std_specs::hash::group_hash_axioms;

/// A number with one decimal, in tenths.
#[derive(Clone, Copy, Debug, PartialEq, Eq, Structural)]
pub struct Tenths {
    pub tenths: i16,
}

/// What an agent reports of itself. The usages and loads are in tenths.
#[derive(Clone, Copy, Debug)]
pub struct DynamicMonitoringSummaryData {
    pub cpu_usage: Option<i16>,
    pub gpu_usage: Option<i16>,
    pub used_swap: Option<i64>,
    pub total_swap: Option<i64>,
    pub used_memory: Option<i64>,
    pub total_memory: Option<i64>,
    pub available_memory: Option<i64>,
    pub load_one: Option<i16>,
    pub load_five: Option<i16>,
    pub load_fifteen: Option<i16>,
    pub uptime: Option<i32>,
    pub boot_time: Option<i64>,
    pub process_count: Option<i32>,
    pub total_space: Option<i64>,
    pub available_space: Option<i64>,
    pub read_speed: Option<i64>,
    pub write_speed: Option<i64>,
    pub tcp_connections: Option<i32>,
    pub udp_connections: Option<i32>,
    pub total_received: Option<i64>,
    pub total_transmitted: Option<i64>,
    pub transmit_speed: Option<i64>,
    pub receive_speed: Option<i64>,
}

/// A summary as subscribers are sent it. It names its agent, since the agents share a channel, and
/// its moment is in milliseconds.
#[derive(Clone, Debug)]
pub struct DynamicSummaryEvent {
    pub uuid: String,
    pub timestamp: i64,
    pub cpu_usage: Option<Tenths>,
    pub gpu_usage: Option<Tenths>,
    pub used_swap: Option<i64>,
    pub total_swap: Option<i64>,
    pub used_memory: Option<i64>,
    pub total_memory: Option<i64>,
    pub available_memory: Option<i64>,
    pub load_one: Option<Tenths>,
    pub load_five: Option<Tenths>,
    pub load_fifteen: Option<Tenths>,
    pub uptime: Option<i32>,
    pub boot_time: Option<i64>,
    pub process_count: Option<i32>,
    pub total_space: Option<i64>,
    pub available_space: Option<i64>,
    pub read_speed: Option<i64>,
    pub write_speed: Option<i64>,
    pub tcp_connections: Option<i32>,
    pub udp_connections: Option<i32>,
    pub total_received: Option<i64>,
    pub total_transmitted: Option<i64>,
    pub transmit_speed: Option<i64>,
    pub receive_speed: Option<i64>,
}

/// A stored number of tenths, if there is one, as a number with one decimal.
pub open spec fn descaled_of(stored: Option<i16>) -> Option<Tenths> {
    match stored {
        Some(tenths) => Some(Tenths { tenths }),
        None => None,
    }
}

/// A stored number of tenths, if there is one, as a number with one decimal.
pub fn descaled(stored: Option<i16>) -> (r: Option<Tenths>)
    ensures
        r == descaled_of(stored),
{
    match stored {
        Some(tenths) => Some(Tenths { tenths }),
        None => None,
    }
}

impl DynamicSummaryEvent {
    /// Whether this is what the report of an agent is sent as: the usages and loads with their
    /// decimal, and everything else as it is.
    pub open spec fn tells(
        self,
        uuid: u128,
        timestamp: i64,
        data: DynamicMonitoringSummaryData,
    ) -> bool {
        &&& self.uuid@ == uuid_text(uuid)
        &&& self.timestamp == timestamp
        &&& self.cpu_usage == descaled_of(data.cpu_usage)
        &&& self.gpu_usage == descaled_of(data.gpu_usage)
        &&& self.load_one == descaled_of(data.load_one)
        &&& self.load_five == descaled_of(data.load_five)
        &&& self.load_fifteen == descaled_of(data.load_fifteen)
        &&& self.used_swap == data.used_swap
        &&& self.total_swap == data.total_swap
        &&& self.used_memory == data.used_memory
        &&& self.total_memory == data.total_memory
        &&& self.available_memory == data.available_memory
        &&& self.uptime == data.uptime
        &&& self.boot_time == data.boot_time
        &&& self.process_count == data.process_count
        &&& self.total_space == data.total_space
        &&& self.available_space == data.available_space
        &&& self.read_speed == data.read_speed
        &&& self.write_speed == data.write_speed
        &&& self.tcp_connections == data.tcp_connections
        &&& self.udp_connections == data.udp_connections
        &&& self.total_received == data.total_received
        &&& self.total_transmitted == data.total_transmitted
        &&& self.transmit_speed == data.transmit_speed
        &&& self.receive_speed == data.receive_speed
    }

    /// The report of an agent as subscribers are sent it.
    pub fn from_data(uuid: u128, timestamp: i64, data: &DynamicMonitoringSummaryData) -> (event:
        DynamicSummaryEvent)
        ensures
            event.tells(uuid, timestamp, *data),
    {
        DynamicSummaryEvent {
            uuid: id_text(uuid),
            timestamp,
            cpu_usage: descaled(data.cpu_usage),
            gpu_usage: descaled(data.gpu_usage),
            load_one: descaled(data.load_one),
            load_five: descaled(data.load_five),
            load_fifteen: descaled(data.load_fifteen),
            used_swap: data.used_swap,
            total_swap: data.total_swap,
            used_memory: data.used_memory,
            total_memory: data.total_memory,
            available_memory: data.available_memory,
            uptime: data.uptime,
            boot_time: data.boot_time,
            process_count: data.process_count,
            total_space: data.total_space,
            available_space: data.available_space,
            read_speed: data.read_speed,
            write_speed: data.write_speed,
            tcp_connections: data.tcp_connections,
            udp_connections: data.udp_connections,
            total_received: data.total_received,
            total_transmitted: data.total_transmitted,
            transmit_speed: data.transmit_speed,
            receive_speed: data.receive_speed,
        }
    }
}

/// A message, and the channels that it goes into.
pub struct Delivery<'a, T, M> {
    pub targets: Vec<(u128, &'a T)>,
    pub message: M,
}

/// Whether the targets are all subscribers, each of them once.
pub open spec fn reaches_all<T>(targets: Seq<(u128, &T)>, subscribers: Map<u128, T>) -> bool {
    &&& forall|i: int|
        0 <= i < targets.len() ==> subscribers.contains_pair(
            (#[trigger] targets[i]).0,
            *targets[i].1,
        )
    &&& forall|i: int, j: int|
        0 <= i < j < targets.len() ==> (#[trigger] targets[i]).0 != (#[trigger] targets[j]).0
    &&& forall|id: u128| #[trigger]
        subscribers.contains_key(id) ==> exists|i: int|
            0 <= i < targets.len() && (#[trigger] targets[i]).0 == id
}

/// All subscribers, each of them once, in no particular order.
fn targets_of<'a, T>(subscribers: &'a HashMap<u128, T>) -> (targets: Vec<(u128, &'a T)>)
    ensures
        reaches_all(targets@, subscribers@),
{
    let mut targets: Vec<(u128, &'a T)> = Vec::new();
    let all = subscribers.iter();
    let ghost pairs = all.remaining();
    for (id, channel) in it: all
        invariant
            it.seq() == pairs,
            targets@.len() == it.index(),
            forall|i: int|
                0 <= i < targets@.len() ==> #[trigger] targets@[i] == (*pairs[i].0, pairs[i].1),
    {
        targets.push((*id, channel));
    }
    proof {
        assert forall|i: int, j: int| 0 <= i < j < targets@.len() implies (
        #[trigger] targets@[i]).0 != (#[trigger] targets@[j]).0 by {
            assert(subscribers@[*pairs[i].0] == *pairs[i].1);
            assert(subscribers@[*pairs[j].0] == *pairs[j].1);
        }
        assert forall|id: u128| #[trigger] subscribers@.contains_key(id) implies exists|i: int|
            0 <= i < targets@.len() && (#[trigger] targets@[i]).0 == id by {
            let i = pairs.index_of((&id, &subscribers@[id]));
            assert(targets@[i].0 == id);
        }
    }
    targets
}

/// The member of the visitor statistics that holds the number of viewers.
pub const ONLINE_VIEWERS: &'static str = "online_viewers";

/// Whether `after` is `before` with the number of viewers set to `count`. Only an object has room
/// for it.
pub open spec fn is_recounted(
    before: serde_json::Value,
    after: serde_json::Value,
    count: nat,
) -> bool {
    match json_members(before) {
        Some(members) => json_members(after) == Some(
            members.insert(ONLINE_VIEWERS@, int_text(count as int)),
        ),
        None => after == before,
    }
}

/// The statistics with the number of viewers set to `count`.
pub fn recounted(stats: &serde_json::Value, count: usize) -> (r: serde_json::Value)
    ensures
        is_recounted(*stats, r, count as nat),
{
    let mut updated = clone_value(stats);
    if is_object(&updated) {
        insert_number(&mut updated, ONLINE_VIEWERS, count as u64);
    }
    updated
}

/// All subscribers, by their registrations, and the last visitor statistics that were sent out.
pub struct DynamicPushRegistry<S, C, V> {
    subscribers: HashMap<u128, S>,
    viewer_count_subs: HashMap<u128, C>,
    visitor_stats_subs: HashMap<u128, V>,
    latest_visitor_stats: Option<serde_json::Value>,
}

#[verifier::reject_recursive_types(S)]
#[verifier::reject_recursive_types(C)]
#[verifier::reject_recursive_types(V)]
pub struct RegistryView<S, C, V> {
    /// Who is sent the summaries of agents: the viewers.
    pub subscribers: Map<u128, S>,
    /// Who is sent the number of viewers.
    pub viewer_count_subs: Map<u128, C>,
    /// Who is sent the visitor statistics.
    pub visitor_stats_subs: Map<u128, V>,
    pub latest_visitor_stats: Option<serde_json::Value>,
}

impl<S, C, V> View for DynamicPushRegistry<S, C, V> {
    type V = RegistryView<S, C, V>;

    closed spec fn view(&self) -> RegistryView<S, C, V> {
        RegistryView {
            subscribers: self.subscribers@,
            viewer_count_subs: self.viewer_count_subs@,
            visitor_stats_subs: self.visitor_stats_subs@,
            latest_visitor_stats: self.latest_visitor_stats,
        }
    }
}

impl<S, C, V> RegistryView<S, C, V> {
    /// Whether `self` is `before` with the number of viewers set to `count` in the statistics, if
    /// there are any.
    pub open spec fn is_counted(self, before: RegistryView<S, C, V>, count: nat) -> bool {
        &&& self.subscribers == before.subscribers
        &&& self.viewer_count_subs == before.viewer_count_subs
        &&& self.visitor_stats_subs == before.visitor_stats_subs
        &&& match (before.latest_visitor_stats, self.latest_visitor_stats) {
            (Some(old_stats), Some(stats)) => is_recounted(old_stats, stats, count),
            (None, None) => true,
            _ => false,
        }
    }

    /// Whether `self` is `before` with the given viewers, and with their number in the statistics.
    pub open spec fn has_viewers(
        self,
        before: RegistryView<S, C, V>,
        subscribers: Map<u128, S>,
    ) -> bool {
        self.is_counted(RegistryView { subscribers, ..before }, subscribers.len())
    }
}

/// What is sent out when the viewers change: their number, and the statistics with that number if
/// there are any.
pub struct ViewerPush<'a, C, V> {
    pub count: Delivery<'a, C, usize>,
    pub stats: Option<Delivery<'a, V, serde_json::Value>>,
}

impl<'a, C, V> ViewerPush<'a, C, V> {
    /// Whether the count and the statistics go to all that are to be sent them. Without statistics
    /// none are sent.
    pub open spec fn tells<S>(self, registry: RegistryView<S, C, V>, count: nat) -> bool {
        &&& self.count.message == count
        &&& reaches_all(self.count.targets@, registry.viewer_count_subs)
        &&& match (self.stats, registry.latest_visitor_stats) {
            (Some(delivery), Some(stats)) => delivery.message == stats && reaches_all(
                delivery.targets@,
                registry.visitor_stats_subs,
            ),
            (None, None) => true,
            _ => false,
        }
    }

    /// Whether the number of viewers and the statistics go to all that are to be sent them.
    pub open spec fn tells_viewers_of<S>(self, registry: RegistryView<S, C, V>) -> bool {
        self.tells(registry, registry.subscribers.len())
    }
}

impl<S, C, V> DynamicPushRegistry<S, C, V> {
    /// A registry without subscribers and statistics.
    pub fn new() -> (registry: Self)
        ensures
            registry@ == (RegistryView::<S, C, V> {
                subscribers: Map::empty(),
                viewer_count_subs: Map::empty(),
                visitor_stats_subs: Map::empty(),
                latest_visitor_stats: None,
            }),
            registry@.subscribers.dom().finite(),
    {
        DynamicPushRegistry {
            subscribers: HashMap::new(),
            viewer_count_subs: HashMap::new(),
            visitor_stats_subs: HashMap::new(),
            latest_visitor_stats: None,
        }
    }

    /// How many viewers there are. There are only finitely many.
    pub fn online_viewers(&self) -> (count: usize)
        ensures
            count == self@.subscribers.len(),
            self@.subscribers.dom().finite(),
    {
        self.subscribers.len()
    }

    /// Registers a viewer, and tells the new number of viewers.
    pub fn subscribe<'a>(&'a mut self, reg_id: u128, tx: S) -> (push: ViewerPush<'a, C, V>)
        ensures
            final(self)@.has_viewers(old(self)@, old(self)@.subscribers.insert(reg_id, tx)),
            final(self)@.subscribers.dom().finite(),
            push.tells_viewers_of(final(self)@),
    {
        self.subscribers.insert(reg_id, tx);
        let count: usize = self.subscribers.len();
        self.broadcast_viewer_count(count)
    }

    /// Removes a viewer, and tells the new number of viewers.
    pub fn unsubscribe<'a>(&'a mut self, reg_id: &u128) -> (push: ViewerPush<'a, C, V>)
        ensures
            final(self)@.has_viewers(old(self)@, old(self)@.subscribers.remove(*reg_id)),
            final(self)@.subscribers.dom().finite(),
            push.tells_viewers_of(final(self)@),
    {
        self.subscribers.remove(reg_id);
        let count: usize = self.subscribers.len();
        self.broadcast_viewer_count(count)
    }

    /// Tells a number of viewers, and keeps it in the statistics.
    pub fn broadcast_viewer_count<'a>(&'a mut self, count: usize) -> (push: ViewerPush<'a, C, V>)
        ensures
            final(self)@.is_counted(old(self)@, count as nat),
            push.tells(final(self)@, count as nat),
    {
        let updated = match &self.latest_visitor_stats {
            Some(stats) => Some(recounted(stats, count)),
            None => None,
        };
        self.latest_visitor_stats = updated;
        let stats = match &self.latest_visitor_stats {
            Some(stats) => Some(
                Delivery {
                    targets: targets_of(&self.visitor_stats_subs),
                    message: clone_value(stats),
                },
            ),
            None => None,
        };
        ViewerPush {
            count: Delivery { targets: targets_of(&self.viewer_count_subs), message: count },
            stats,
        }
    }

    /// Sends a summary to all viewers.
    pub fn broadcast<'a>(&'a self, event: DynamicSummaryEvent) -> (delivery: Delivery<
        'a,
        S,
        DynamicSummaryEvent,
    >)
        ensures
            delivery.message == event,
            reaches_all(delivery.targets@, self@.subscribers),
    {
        Delivery { targets: targets_of(&self.subscribers), message: event }
    }

    /// Registers a channel for the number of viewers. The present number is the first that goes
    /// into it.
    pub fn subscribe_viewer_count(&mut self, reg_id: u128, tx: C) -> (count: usize)
        ensures
            count == old(self)@.subscribers.len(),
            final(self)@ == (RegistryView {
                viewer_count_subs: old(self)@.viewer_count_subs.insert(reg_id, tx),
                ..old(self)@
            }),
    {
        let count: usize = self.subscribers.len();
        self.viewer_count_subs.insert(reg_id, tx);
        count
    }

    /// Removes a channel for the number of viewers.
    pub fn unsubscribe_viewer_count(&mut self, reg_id: &u128)
        ensures
            final(self)@ == (RegistryView {
                viewer_count_subs: old(self)@.viewer_count_subs.remove(*reg_id),
                ..old(self)@
            }),
    {
        self.viewer_count_subs.remove(reg_id);
    }

    /// Registers a channel for the visitor statistics.
    pub fn subscribe_visitor_stats(&mut self, reg_id: u128, tx: V)
        ensures
            final(self)@ == (RegistryView {
                visitor_stats_subs: old(self)@.visitor_stats_subs.insert(reg_id, tx),
                ..old(self)@
            }),
    {
        self.visitor_stats_subs.insert(reg_id, tx);
    }

    /// Removes a channel for the visitor statistics.
    pub fn unsubscribe_visitor_stats(&mut self, reg_id: &u128)
        ensures
            final(self)@ == (RegistryView {
                visitor_stats_subs: old(self)@.visitor_stats_subs.remove(*reg_id),
                ..old(self)@
            }),
    {
        self.visitor_stats_subs.remove(reg_id);
    }

    /// Sends the visitor statistics to all that are to be sent them, and keeps them for when the
    /// viewers change.
    pub fn broadcast_visitor_stats<'a>(&'a mut self, stats: &serde_json::Value) -> (delivery:
        Delivery<'a, V, serde_json::Value>)
        ensures
            final(self)@ == (RegistryView { latest_visitor_stats: Some(*stats), ..old(self)@ }),
            delivery.message == *stats,
            reaches_all(delivery.targets@, final(self)@.visitor_stats_subs),
    {
        self.latest_visitor_stats = Some(clone_value(stats));
        Delivery { targets: targets_of(&self.visitor_stats_subs), message: clone_value(stats) }
    }
}

/// A message goes into as many channels as there are subscribers.
pub proof fn law_one_message_for_each_subscriber<T>(
    targets: Seq<(u128, &T)>,
    subscribers: Map<u128, T>,
)
    requires
        reaches_all(targets, subscribers),
    ensures
        targets.len() == subscribers.len(),
{
    let ids = targets.map_values(|target: (u128, &T)| target.0);
    assert(ids.no_duplicates());
    ids.unique_seq_to_set();
    assert(ids.to_set() =~= subscribers.dom()) by {
        assert forall|id: u128| #[trigger] subscribers.contains_key(id) implies ids.contains(id) by {
            let i = choose|i: int| 0 <= i < targets.len() && (#[trigger] targets[i]).0 == id;
            assert(ids[i] == id);
        }
    }
}

/// Whenever a number of viewers is told, statistics that are an object carry that number, their other
/// members stay as they were, and they are kept for the next time. Statistics that are no object stay
/// as they were, and without statistics none come to be.
pub proof fn law_statistics_take_the_count<S, C, V>(
    before: RegistryView<S, C, V>,
    after: RegistryView<S, C, V>,
    count: nat,
    member: Seq<char>,
)
    requires
        after.is_counted(before, count),
    ensures
        after.latest_visitor_stats is Some <==> before.latest_visitor_stats is Some,
        before.latest_visitor_stats is Some ==> {
            let old_stats = before.latest_visitor_stats->0;
            let stats = after.latest_visitor_stats->0;
            match json_members(old_stats) {
                None => stats == old_stats,
                Some(members) => {
                    &&& json_members(stats) is Some
                    &&& json_members(stats)->0.contains_pair(
                        ONLINE_VIEWERS@,
                        int_text(count as int),
                    )
                    &&& member != ONLINE_VIEWERS@ ==> {
                        &&& json_members(stats)->0.contains_key(member) == members.contains_key(
                            member,
                        )
                        &&& json_members(stats)->0[member] == members[member]
                    }
                },
            }
        },
{
}

/// Whenever the viewers change, statistics that are an object carry the new number of viewers, and
/// everyone who is to be sent the number or the statistics is sent them.
pub proof fn law_statistics_follow_the_viewers<S, C, V>(
    before: RegistryView<S, C, V>,
    after: RegistryView<S, C, V>,
    push: ViewerPush<C, V>,
    subscribers: Map<u128, S>,
)
    requires
        after.has_viewers(before, subscribers),
        push.tells_viewers_of(after),
    ensures
        push.count.message == subscribers.len(),
        push.count.targets@.len() == before.viewer_count_subs.len(),
        push.stats is Some <==> before.latest_visitor_stats is Some,
        push.stats is Some ==> {
            let stats = push.stats->0;
            &&& stats.targets@.len() == before.visitor_stats_subs.len()
            &&& json_members(before.latest_visitor_stats->0) is Some ==> json_members(
                stats.message,
            ) is Some && json_members(stats.message)->0.contains_pair(
                ONLINE_VIEWERS@,
                int_text(subscribers.len() as int),
            )
        },
{
    law_one_message_for_each_subscriber(push.count.targets@, after.viewer_count_subs);
    if push.stats is Some {
        law_one_message_for_each_subscriber(push.stats->0.targets@, after.visitor_stats_subs);
    }
}

/// A viewer that leaves undoes its coming: the viewers are those from before, and so is every
/// channel that is not a viewer's; in between, there is one viewer more.
pub proof fn law_leaving_undoes_coming<S, C, V>(
    before: RegistryView<S, C, V>,
    between: RegistryView<S, C, V>,
    after: RegistryView<S, C, V>,
    reg_id: u128,
    tx: S,
)
    requires
        before.subscribers.dom().finite(),
        !before.subscribers.contains_key(reg_id),
        between.has_viewers(before, before.subscribers.insert(reg_id, tx)),
        after.has_viewers(between, between.subscribers.remove(reg_id)),
    ensures
        between.subscribers.len() == before.subscribers.len() + 1,
        after.subscribers == before.subscribers,
        after.viewer_count_subs == before.viewer_count_subs,
        after.visitor_stats_subs == before.visitor_stats_subs,
        after.latest_visitor_stats is Some == before.latest_visitor_stats is Some,
{
    assert(before.subscribers.insert(reg_id, tx).remove(reg_id) =~= before.subscribers);
}

/// The registration of a viewer twice under one identifier is one viewer, and removing one that is
/// not registered changes no viewer.
pub proof fn law_a_registration_counts_once<S, C, V>(
    before: RegistryView<S, C, V>,
    after: RegistryView<S, C, V>,
    reg_id: u128,
    tx: S,
)
    ensures
        before.subscribers.contains_key(reg_id) && after.has_viewers(
            before,
            before.subscribers.insert(reg_id, tx),
        ) ==> after.subscribers.len() == before.subscribers.len(),
        !before.subscribers.contains_key(reg_id) && after.has_viewers(
            before,
            before.subscribers.remove(reg_id),
        ) ==> after.subscribers == before.subscribers,
{
    if before.subscribers.contains_key(reg_id) {
        assert(before.subscribers.insert(reg_id, tx).dom() =~= before.subscribers.dom());
    } else {
        assert(before.subscribers.remove(reg_id) =~= before.subscribers);
    }
}

/// What a subscriber is sent of an agent's report names the agent and the moment, and holds what the
/// report holds, each under its own name: a number that is missing in the report is missing there, and
/// the usages and loads are the same numbers of tenths.
pub proof fn law_summary_is_the_report(
    event: DynamicSummaryEvent,
    uuid: u128,
    timestamp: i64,
    data: DynamicMonitoringSummaryData,
)
    requires
        event.tells(uuid, timestamp, data),
    ensures
        event.uuid@ == uuid_text(uuid),
        event.timestamp == timestamp,
        event.cpu_usage is Some <==> data.cpu_usage is Some,
        event.cpu_usage matches Some(n) ==> data.cpu_usage == Some(n.tenths),
        event.gpu_usage is Some <==> data.gpu_usage is Some,
        event.gpu_usage matches Some(n) ==> data.gpu_usage == Some(n.tenths),
        event.load_one is Some <==> data.load_one is Some,
        event.load_one matches Some(n) ==> data.load_one == Some(n.tenths),
        event.load_five is Some <==> data.load_five is Some,
        event.load_five matches Some(n) ==> data.load_five == Some(n.tenths),
        event.load_fifteen is Some <==> data.load_fifteen is Some,
        event.load_fifteen matches Some(n) ==> data.load_fifteen == Some(n.tenths),
        event.used_swap == data.used_swap,
        event.total_swap == data.total_swap,
        event.used_memory == data.used_memory,
        event.total_memory == data.total_memory,
        event.available_memory == data.available_memory,
        event.uptime == data.uptime,
        event.boot_time == data.boot_time,
        event.process_count == data.process_count,
        event.total_space == data.total_space,
        event.available_space == data.available_space,
        event.read_speed == data.read_speed,
        event.write_speed == data.write_speed,
        event.tcp_connections == data.tcp_connections,
        event.udp_connections == data.udp_connections,
        event.total_received == data.total_received,
        event.total_transmitted == data.total_transmitted,
        event.transmit_speed == data.transmit_speed,
        event.receive_speed == data.receive_speed,
{
}

/// A message goes into the channel of every subscriber, under its own registration, and into no other.
pub proof fn law_every_subscriber_is_reached<T>(
    targets: Seq<(u128, &T)>,
    subscribers: Map<u128, T>,
    id: u128,
    i: int,
)
    requires
        reaches_all(targets, subscribers),
    ensures
        subscribers.contains_key(id) ==> exists|k: int|
            0 <= k < targets.len() && (#[trigger] targets[k]).0 == id && *targets[k].1
                == subscribers[id],
        0 <= i < targets.len() ==> subscribers.contains_key(targets[i].0) && *targets[i].1
            == subscribers[targets[i].0],
{
    if subscribers.contains_key(id) {
        let k = choose|k: int| 0 <= k < targets.len() && (#[trigger] targets[k]).0 == id;
        assert(subscribers.contains_pair(targets[k].0, *targets[k].1));
    }
    if 0 <= i < targets.len() {
        assert(subscribers.contains_pair(targets[i].0, *targets[i].1));
    }
}

/// When the viewers change, only they and the number in the statistics change, and what is told is the
/// number of viewers, together with the statistics that are kept.
pub proof fn law_only_the_viewers_change<S, C, V>(
    before: RegistryView<S, C, V>,
    after: RegistryView<S, C, V>,
    push: ViewerPush<C, V>,
    subscribers: Map<u128, S>,
)
    requires
        after.has_viewers(before, subscribers),
        push.tells_viewers_of(after),
    ensures
        after.subscribers == subscribers,
        after.viewer_count_subs == before.viewer_count_subs,
        after.visitor_stats_subs == before.visitor_stats_subs,
        push.count.message == subscribers.len(),
        reaches_all(push.count.targets@, before.viewer_count_subs),
        push.stats matches Some(delivery) ==> {
            &&& after.latest_visitor_stats == Some(delivery.message)
            &&& reaches_all(delivery.targets@, before.visitor_stats_subs)
        },
        match before.latest_visitor_stats {
            None => push.stats is None && after.latest_visitor_stats is None,
            Some(stats) => {
                &&& push.stats is Some
                &&& match json_members(stats) {
                    None => push.stats->0.message == stats,
                    Some(members) => json_members(push.stats->0.message) == Some(
                        members.insert("online_viewers"@, int_text(subscribers.len() as int)),
                    ),
                }
            },
        },
{
}

/// A number of viewers that is told is the number that was given, whatever the registry holds, and it
/// goes to all who are to be sent it; so do the statistics that are kept, if there are any.
pub proof fn law_given_number_is_told<S, C, V>(
    registry: RegistryView<S, C, V>,
    push: ViewerPush<C, V>,
    count: nat,
)
    requires
        push.tells(registry, count),
    ensures
        push.count.message == count,
        reaches_all(push.count.targets@, registry.viewer_count_subs),
        push.stats is Some <==> registry.latest_visitor_stats is Some,
        push.stats matches Some(delivery) ==> {
            &&& registry.latest_visitor_stats == Some(delivery.message)
            &&& reaches_all(delivery.targets@, registry.visitor_stats_subs)
        },
{
}

/// Statistics that are counted anew differ from those before in the number of viewers only.
pub proof fn law_counting_anew_sets_one_member(
    before: serde_json::Value,
    after: serde_json::Value,
    count: nat,
)
    requires
        is_recounted(before, after, count),
    ensures
        json_members(before) is None ==> after == before,
        json_members(before) is Some ==> json_members(after) == Some(
            json_members(before)->0.insert("online_viewers"@, int_text(count as int)),
        ),
{
}

} // verus!
