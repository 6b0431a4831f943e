use nodeget_server::rpc::agent::generate_avg_error_id;
use nodeget_server::ws_counter::{get, ConnectionCount, ConnectionGuard};

#[test]
fn a_connection_counts_until_it_is_released() {
    let mut connections = ConnectionCount::none();
    assert_eq!(get(&connections), 0);
    let first = ConnectionGuard::new(&mut connections);
    let second = ConnectionGuard::new(&mut connections);
    assert_eq!(get(&connections), 2);
    first.release(&mut connections);
    assert_eq!(get(&connections), 1);
    second.release(&mut connections);
    assert_eq!(get(&connections), 0);
}

#[test]
fn the_count_does_not_depend_on_the_order() {
    let mut connections = ConnectionCount::none();
    let mut guards: Vec<ConnectionGuard> = Vec::new();
    for _ in 0..10 {
        guards.push(ConnectionGuard::new(&mut connections));
    }
    guards.swap_remove(3).release(&mut connections);
    guards.swap_remove(0).release(&mut connections);
    guards.push(ConnectionGuard::new(&mut connections));
    assert_eq!(get(&connections), 9);
    assert_eq!(get(&connections), guards.len());
}

#[test]
fn error_numbers_count_up() {
    let mut counter = 0;
    assert_eq!(generate_avg_error_id(&mut counter), 0);
    assert_eq!(generate_avg_error_id(&mut counter), 1);
    assert_eq!(generate_avg_error_id(&mut counter), 2);
    assert_eq!(counter, 3);
}

#[test]
fn error_numbers_start_over_after_the_greatest() {
    let mut counter = u64::MAX;
    assert_eq!(generate_avg_error_id(&mut counter), u64::MAX);
    assert_eq!(generate_avg_error_id(&mut counter), 0);
}

#[test]
fn a_shared_connection_counts_until_its_last_owner_goes() {
    let mut connections = ConnectionCount::none();
    let first = std::sync::Arc::new(ConnectionGuard::new(&mut connections));
    let second = first.clone();
    assert_eq!(get(&connections), 1);
    assert!(std::sync::Arc::into_inner(first).is_none());
    assert_eq!(get(&connections), 1);
    std::sync::Arc::into_inner(second).unwrap().release(&mut connections);
    assert_eq!(get(&connections), 0);
}
