use nodeget_server::monitoring_push::{
    descaled, recounted, DynamicMonitoringSummaryData, DynamicPushRegistry, DynamicSummaryEvent,
    Tenths,
};
use serde_json::Value;

type Registry = DynamicPushRegistry<&'static str, &'static str, &'static str>;

fn summary() -> DynamicMonitoringSummaryData {
    DynamicMonitoringSummaryData {
        cpu_usage: Some(123),
        gpu_usage: None,
        used_swap: Some(1),
        total_swap: Some(2),
        used_memory: Some(3),
        total_memory: Some(4),
        available_memory: Some(5),
        load_one: Some(10),
        load_five: Some(-7),
        load_fifteen: Some(0),
        uptime: Some(6),
        boot_time: Some(7),
        process_count: Some(8),
        total_space: Some(9),
        available_space: Some(10),
        read_speed: Some(11),
        write_speed: Some(12),
        tcp_connections: Some(13),
        udp_connections: Some(14),
        total_received: Some(15),
        total_transmitted: Some(16),
        transmit_speed: Some(17),
        receive_speed: None,
    }
}

fn json(text: &str) -> Value {
    serde_json::from_str(text).unwrap()
}

fn sorted(targets: &Vec<(u128, &&'static str)>) -> Vec<(u128, &'static str)> {
    let mut all: Vec<(u128, &'static str)> = targets.iter().map(|t| (t.0, *t.1)).collect();
    all.sort();
    all
}

#[test]
fn an_event_tells_the_report_of_its_agent() {
    let event = DynamicSummaryEvent::from_data(
        0x0123_4567_89ab_cdef_0123_4567_89ab_cdef,
        1_700_000_000_123,
        &summary(),
    );
    assert_eq!(event.uuid, "01234567-89ab-cdef-0123-456789abcdef");
    assert_eq!(event.timestamp, 1_700_000_000_123);
    assert_eq!(event.cpu_usage, Some(Tenths { tenths: 123 }));
    assert_eq!(event.gpu_usage, None);
    assert_eq!(event.load_one, Some(Tenths { tenths: 10 }));
    assert_eq!(event.load_five, Some(Tenths { tenths: -7 }));
    assert_eq!(event.load_fifteen, Some(Tenths { tenths: 0 }));
    assert_eq!(event.used_swap, Some(1));
    assert_eq!(event.total_swap, Some(2));
    assert_eq!(event.used_memory, Some(3));
    assert_eq!(event.total_memory, Some(4));
    assert_eq!(event.available_memory, Some(5));
    assert_eq!(event.uptime, Some(6));
    assert_eq!(event.boot_time, Some(7));
    assert_eq!(event.process_count, Some(8));
    assert_eq!(event.total_space, Some(9));
    assert_eq!(event.available_space, Some(10));
    assert_eq!(event.read_speed, Some(11));
    assert_eq!(event.write_speed, Some(12));
    assert_eq!(event.tcp_connections, Some(13));
    assert_eq!(event.udp_connections, Some(14));
    assert_eq!(event.total_received, Some(15));
    assert_eq!(event.total_transmitted, Some(16));
    assert_eq!(event.transmit_speed, Some(17));
    assert_eq!(event.receive_speed, None);
}

#[test]
fn written_ids_are_those_of_the_uuid_crate() {
    let ids: Vec<u128> = vec![0, 1, u128::MAX, 0xa0b1_c2d3_e4f5_0617_2839_4a5b_6c7d_8e9f];
    for id in ids {
        let event = DynamicSummaryEvent::from_data(id, 0, &summary());
        assert_eq!(event.uuid, uuid::Uuid::from_u128(id).to_string());
        assert_eq!(event.uuid.parse::<uuid::Uuid>().unwrap().as_u128(), id);
    }
}

#[test]
fn tenths_stay_what_they_are() {
    assert_eq!(descaled(None), None);
    assert_eq!(descaled(Some(i16::MIN)), Some(Tenths { tenths: i16::MIN }));
    assert_eq!(descaled(Some(15)), Some(Tenths { tenths: 15 }));
}

#[test]
fn the_number_of_viewers_goes_into_an_object() {
    let stats = json("{\"a\":1,\"online_viewers\":9}");
    assert_eq!(recounted(&stats, 2), json("{\"a\":1,\"online_viewers\":2}"));
    assert_eq!(stats, json("{\"a\":1,\"online_viewers\":9}"));
    assert_eq!(recounted(&json("{}"), usize::MAX)["online_viewers"], Value::from(u64::MAX));
}

#[test]
fn what_is_no_object_stays_as_it_is() {
    for text in vec!["null", "[1,2]", "\"text\"", "7", "true"] {
        assert_eq!(recounted(&json(text), 5), json(text));
    }
}

#[test]
fn a_new_viewer_is_told_to_those_that_count() {
    let mut registry: Registry = DynamicPushRegistry::new();
    assert_eq!(registry.online_viewers(), 0);
    assert_eq!(registry.subscribe_viewer_count(7, "count-7"), 0);
    assert_eq!(registry.subscribe_viewer_count(8, "count-8"), 0);
    let push = registry.subscribe(1, "one");
    assert_eq!(push.count.message, 1);
    assert_eq!(sorted(&push.count.targets), vec![(7, "count-7"), (8, "count-8")]);
    assert!(push.stats.is_none());
    let push = registry.subscribe(2, "two");
    assert_eq!(push.count.message, 2);
    assert_eq!(registry.online_viewers(), 2);
    assert_eq!(registry.subscribe_viewer_count(9, "count-9"), 2);
    registry.unsubscribe_viewer_count(&7);
    let push = registry.unsubscribe(&1);
    assert_eq!(push.count.message, 1);
    assert_eq!(sorted(&push.count.targets), vec![(8, "count-8"), (9, "count-9")]);
    assert_eq!(registry.online_viewers(), 1);
}

#[test]
fn a_registration_counts_once() {
    let mut registry: Registry = DynamicPushRegistry::new();
    assert_eq!(registry.subscribe(1, "one").count.message, 1);
    assert_eq!(registry.subscribe(1, "other").count.message, 1);
    assert_eq!(registry.unsubscribe(&2).count.message, 1);
    let delivery = registry.broadcast(DynamicSummaryEvent::from_data(5, 6, &summary()));
    assert_eq!(sorted(&delivery.targets), vec![(1, "other")]);
    assert_eq!(registry.unsubscribe(&1).count.message, 0);
    assert_eq!(registry.unsubscribe(&1).count.message, 0);
}

#[test]
fn a_summary_goes_to_every_viewer_once() {
    let mut registry: Registry = DynamicPushRegistry::new();
    registry.subscribe_viewer_count(1, "no viewer");
    registry.subscribe_visitor_stats(2, "no viewer");
    for id in 10..30 {
        registry.subscribe(id, "viewer");
    }
    registry.unsubscribe(&15);
    let delivery = registry.broadcast(DynamicSummaryEvent::from_data(3, 4, &summary()));
    assert_eq!(delivery.message.timestamp, 4);
    assert_eq!(delivery.message.uuid, "00000000-0000-0000-0000-000000000003");
    let expected: Vec<(u128, &'static str)> = (10..30)
        .filter(|id| *id != 15)
        .map(|id| (id, "viewer"))
        .collect();
    assert_eq!(sorted(&delivery.targets), expected);
}

#[test]
fn statistics_follow_the_viewers() {
    let mut registry: Registry = DynamicPushRegistry::new();
    registry.subscribe_visitor_stats(4, "stats-4");
    registry.subscribe(1, "one");
    let delivery = registry.broadcast_visitor_stats(&json("{\"today_total\":3}"));
    assert_eq!(delivery.message, json("{\"today_total\":3}"));
    assert_eq!(sorted(&delivery.targets), vec![(4, "stats-4")]);
    registry.subscribe_visitor_stats(5, "stats-5");
    let push = registry.subscribe(2, "two");
    let stats = push.stats.unwrap();
    assert_eq!(stats.message, json("{\"today_total\":3,\"online_viewers\":2}"));
    assert_eq!(sorted(&stats.targets), vec![(4, "stats-4"), (5, "stats-5")]);
    registry.unsubscribe_visitor_stats(&4);
    let push = registry.unsubscribe(&1);
    let stats = push.stats.unwrap();
    assert_eq!(stats.message, json("{\"today_total\":3,\"online_viewers\":1}"));
    assert_eq!(sorted(&stats.targets), vec![(5, "stats-5")]);
}

#[test]
fn statistics_that_are_no_object_are_sent_as_they_are() {
    let mut registry: Registry = DynamicPushRegistry::new();
    registry.broadcast_visitor_stats(&json("[1]"));
    let push = registry.subscribe(1, "one");
    assert_eq!(push.stats.unwrap().message, json("[1]"));
}

#[test]
fn leaving_undoes_coming() {
    let mut registry: Registry = DynamicPushRegistry::new();
    registry.subscribe(1, "one");
    registry.subscribe(2, "two");
    let between = registry.subscribe(3, "three").count.message;
    registry.unsubscribe(&3);
    assert_eq!(between, 3);
    let delivery = registry.broadcast(DynamicSummaryEvent::from_data(3, 4, &summary()));
    assert_eq!(sorted(&delivery.targets), vec![(1, "one"), (2, "two")]);
}

#[test]
fn any_number_of_viewers_can_be_told() {
    let mut registry: Registry = DynamicPushRegistry::new();
    registry.subscribe_viewer_count(7, "count-7");
    registry.subscribe_visitor_stats(4, "stats-4");
    let push = registry.broadcast_viewer_count(9);
    assert_eq!(push.count.message, 9);
    assert_eq!(sorted(&push.count.targets), vec![(7, "count-7")]);
    assert!(push.stats.is_none());
    registry.broadcast_visitor_stats(&json("{\"a\":1}"));
    let stats = registry.broadcast_viewer_count(9).stats.unwrap();
    assert_eq!(stats.message, json("{\"a\":1,\"online_viewers\":9}"));
    assert_eq!(sorted(&stats.targets), vec![(4, "stats-4")]);
    let stats = registry.broadcast_viewer_count(10).stats.unwrap();
    assert_eq!(stats.message, json("{\"a\":1,\"online_viewers\":10}"));
    assert_eq!(registry.online_viewers(), 0);
}
