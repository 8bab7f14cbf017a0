use audio_relay::scan::{first_index_of, ScanAction, ScanPool, RELAY_PORT};
use audio_relay::subnet::Subnet;

fn ip(a: u8, b: u8, c: u8, d: u8) -> u32 {
    u32::from_be_bytes([a, b, c, d])
}

/// Runs a sweep against a set of listening addresses. Attempts end in an
/// order that differs from the order in which they began. Returns what was
/// found, the addresses attempted, and the most attempts under way at once.
fn sweep(subnet: Subnet, workers: usize, listeners: &[u32]) -> (Vec<u32>, Vec<u32>, usize) {
    let mut pool = ScanPool::new(subnet, workers).unwrap();
    let mut pending: Vec<u32> = Vec::new();
    let mut attempted: Vec<u32> = Vec::new();
    let mut most = 0;
    loop {
        match pool.next_action() {
            ScanAction::Attempt(address) => {
                pending.push(address);
                attempted.push(address);
                assert_eq!(pool.in_flight(), pending.len());
                most = most.max(pool.in_flight());
            }
            ScanAction::Wait => {
                let address = pending.pop().unwrap();
                assert!(pool.complete(address, listeners.contains(&address)));
            }
            ScanAction::Finished => break,
        }
    }
    assert!(pending.is_empty());
    assert!(pool.is_finished());
    (pool.found(), attempted, most)
}

#[test]
fn the_relay_port_is_fixed() {
    assert_eq!(RELAY_PORT, 34234);
}

#[test]
fn sweep_finds_exactly_the_two_listeners() {
    let subnet = Subnet::containing(ip(192, 168, 1, 0), 24).unwrap();
    let listeners = [ip(192, 168, 1, 5), ip(192, 168, 1, 10)];
    let (mut found, attempted, most) = sweep(subnet, 16, &listeners);
    found.sort();
    assert_eq!(found, vec![ip(192, 168, 1, 5), ip(192, 168, 1, 10)]);
    assert_eq!(attempted.len(), 256);
    assert!(most <= 16);
    assert_eq!(most, 16);
}

#[test]
fn every_address_is_attempted_once_in_address_order() {
    let subnet = Subnet::containing(ip(10, 1, 2, 200), 26).unwrap();
    let (found, attempted, most) = sweep(subnet, 3, &[]);
    assert!(found.is_empty());
    let expected: Vec<u32> = (0..64).map(|k| ip(10, 1, 2, 192) + k).collect();
    assert_eq!(attempted, expected);
    assert_eq!(most, 3);
}

#[test]
fn base_broadcast_and_own_address_are_swept_too() {
    let subnet = Subnet::containing(ip(192, 168, 7, 9), 29).unwrap();
    let (_, attempted, _) = sweep(subnet, 256, &[]);
    assert!(attempted.contains(&ip(192, 168, 7, 8)));
    assert!(attempted.contains(&ip(192, 168, 7, 9)));
    assert!(attempted.contains(&ip(192, 168, 7, 15)));
    assert_eq!(attempted.len(), 8);
}

#[test]
fn pool_larger_than_the_subnet_is_bounded_by_the_subnet() {
    let subnet = Subnet::containing(ip(192, 168, 7, 9), 30).unwrap();
    let (found, attempted, most) = sweep(subnet, 256, &[ip(192, 168, 7, 11)]);
    assert_eq!(found, vec![ip(192, 168, 7, 11)]);
    assert_eq!(attempted.len(), 4);
    assert_eq!(most, 4);
}

#[test]
fn peers_are_reported_in_completion_order() {
    let subnet = Subnet::containing(ip(192, 168, 1, 0), 24).unwrap();
    let mut pool = ScanPool::new(subnet, 4).unwrap();
    let mut handed = Vec::new();
    for _ in 0..4 {
        match pool.next_action() {
            ScanAction::Attempt(address) => handed.push(address),
            other => panic!("expected an attempt, got {:?}", other),
        }
    }
    assert_eq!(handed, vec![ip(192, 168, 1, 0), ip(192, 168, 1, 1), ip(192, 168, 1, 2), ip(192, 168, 1, 3)]);
    assert_eq!(pool.next_action(), ScanAction::Wait);
    assert_eq!(pool.in_flight(), 4);
    assert!(pool.complete(ip(192, 168, 1, 3), true));
    assert!(pool.complete(ip(192, 168, 1, 1), false));
    assert!(pool.complete(ip(192, 168, 1, 0), true));
    assert_eq!(pool.found(), vec![ip(192, 168, 1, 3), ip(192, 168, 1, 0)]);
    assert_eq!(pool.in_flight(), 1);
    assert_eq!(pool.next_action(), ScanAction::Attempt(ip(192, 168, 1, 4)));
    assert!(!pool.is_finished());
}

#[test]
fn pool_without_workers_is_refused() {
    let subnet = Subnet::containing(ip(192, 168, 1, 0), 24).unwrap();
    assert!(ScanPool::new(subnet, 0).is_none());
    assert_eq!(ScanPool::new(subnet, 16).unwrap().max_workers(), 16);
}

#[test]
fn report_without_an_attempt_under_way_changes_nothing() {
    let subnet = Subnet::containing(ip(192, 168, 1, 0), 24).unwrap();
    let mut pool = ScanPool::new(subnet, 2).unwrap();
    assert!(!pool.complete(ip(192, 168, 1, 5), true));
    assert!(pool.found().is_empty());
    assert_eq!(pool.in_flight(), 0);
    assert_eq!(pool.next_action(), ScanAction::Attempt(ip(192, 168, 1, 0)));
}

#[test]
fn report_for_an_address_outside_the_subnet_changes_nothing() {
    let subnet = Subnet::containing(ip(192, 168, 1, 0), 24).unwrap();
    let mut pool = ScanPool::new(subnet, 2).unwrap();
    assert_eq!(pool.next_action(), ScanAction::Attempt(ip(192, 168, 1, 0)));
    assert!(!pool.complete(ip(192, 168, 2, 0), true));
    assert!(pool.found().is_empty());
    assert_eq!(pool.in_flight(), 1);
}

#[test]
fn report_for_an_address_not_yet_attempted_changes_nothing() {
    let subnet = Subnet::containing(ip(192, 168, 1, 0), 24).unwrap();
    let mut pool = ScanPool::new(subnet, 2).unwrap();
    assert_eq!(pool.next_action(), ScanAction::Attempt(ip(192, 168, 1, 0)));
    assert!(!pool.complete(ip(192, 168, 1, 1), true));
    assert!(!pool.complete(ip(192, 168, 1, 200), true));
    assert!(pool.found().is_empty());
    assert_eq!(pool.in_flight(), 1);
    assert!(pool.complete(ip(192, 168, 1, 0), true));
    assert_eq!(pool.found(), vec![ip(192, 168, 1, 0)]);
    assert_eq!(pool.in_flight(), 0);
}

#[test]
fn second_report_for_the_same_attempt_is_not_taken() {
    let subnet = Subnet::containing(ip(192, 168, 1, 0), 24).unwrap();
    let mut pool = ScanPool::new(subnet, 3).unwrap();
    assert_eq!(pool.next_action(), ScanAction::Attempt(ip(192, 168, 1, 0)));
    assert_eq!(pool.next_action(), ScanAction::Attempt(ip(192, 168, 1, 1)));
    assert!(pool.complete(ip(192, 168, 1, 1), true));
    assert!(!pool.complete(ip(192, 168, 1, 1), true));
    assert_eq!(pool.found(), vec![ip(192, 168, 1, 1)]);
    assert_eq!(pool.in_flight(), 1);
    assert!(pool.complete(ip(192, 168, 1, 0), false));
    assert!(!pool.complete(ip(192, 168, 1, 0), true));
    assert_eq!(pool.found(), vec![ip(192, 168, 1, 1)]);
    assert_eq!(pool.in_flight(), 0);
}

#[test]
fn no_peer_is_found_twice() {
    let subnet = Subnet::containing(ip(10, 0, 0, 0), 28).unwrap();
    let listeners: Vec<u32> = (0..16).map(|k| ip(10, 0, 0, k)).collect();
    let (found, attempted, most) = sweep(subnet, 5, &listeners);
    assert_eq!(found.len(), 16);
    let mut sorted = found.clone();
    sorted.sort();
    sorted.dedup();
    assert_eq!(sorted, listeners);
    assert_eq!(attempted, listeners);
    assert_eq!(most, 5);
}

#[test]
fn first_index_of_finds_the_first_place() {
    let addresses = vec![7u32, 9, 7, 3];
    assert_eq!(first_index_of(&addresses, 7), Some(0));
    assert_eq!(first_index_of(&addresses, 9), Some(1));
    assert_eq!(first_index_of(&addresses, 3), Some(3));
    assert_eq!(first_index_of(&addresses, 4), None);
    assert_eq!(first_index_of(&Vec::new(), 4), None);
}
