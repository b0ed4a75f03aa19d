use freenet::bw::UdpPacketTracker;
use std::time::{Duration, Instant};

fn verify_bandwidth_match(tracker: &UdpPacketTracker) {
    let mut total_bandwidth = 0;
    for size in tracker.packet_sizes() {
        total_bandwidth += size;
    }
    assert_eq!(total_bandwidth, tracker.current_bandwidth());
}

const MS: u128 = 1_000_000;
const SEC: u128 = 1_000_000_000;

#[test]
fn test_adding_packets() {
    let mut tracker = UdpPacketTracker::new(Duration::from_secs(1), 10000);
    verify_bandwidth_match(&tracker);
    tracker.add_packet(1500);
    verify_bandwidth_match(&tracker);
    assert_eq!(tracker.packet_count(), 1);
}

#[test]
fn test_bandwidth_calculation() {
    let mut tracker = UdpPacketTracker::new(Duration::from_secs(1), 10000);
    tracker.add_packet(1500);
    tracker.add_packet(2500);
    verify_bandwidth_match(&tracker);
    assert_eq!(tracker.packet_sizes().iter().sum::<usize>(), 4000);
}

#[test]
fn test_packet_expiry() {
    // 200 ms window; the clock is advanced by 300 ms instead of sleeping.
    let mut tracker = UdpPacketTracker::from_parts(200 * MS, 10000, Instant::now());
    tracker.add_packet_at(1500, 0);
    verify_bandwidth_match(&tracker);
    tracker.cleanup_at(300 * MS);
    verify_bandwidth_match(&tracker);
    assert_eq!(tracker.packet_count(), 0);
}

#[test]
fn test_wait_time_calculation() {
    // 1 s window; the second packet goes out 500 ms after the first.
    let mut tracker = UdpPacketTracker::from_parts(SEC, 10000, Instant::now());
    tracker.add_packet_at(5000, 0);
    verify_bandwidth_match(&tracker);
    tracker.add_packet_at(4000, 500 * MS);
    verify_bandwidth_match(&tracker);
    match tracker.can_send_packet_at(2000, 500 * MS) {
        Ok(_) => panic!("Should require waiting"),
        Err(wait_time) => assert!(wait_time > 0),
    }
}

#[test]
fn test_immediate_send() {
    let mut tracker = UdpPacketTracker::new(Duration::from_secs(10), 10000);
    tracker.add_packet(3000);
    assert_eq!(tracker.can_send_packet(2000), Ok(()));
}

#[test]
fn new_converts_the_window_to_nanoseconds() {
    let tracker = UdpPacketTracker::new(Duration::from_millis(1500), 10);
    assert_eq!(tracker.window_nanos(), 1_500_000_000);
    assert_eq!(tracker.bandwidth_limit(), 10);
    assert_eq!(tracker.current_bandwidth(), 0);
    assert_eq!(tracker.packet_count(), 0);
}

#[test]
fn wait_is_until_the_oldest_packet_that_makes_room_expires() {
    let mut tracker = UdpPacketTracker::from_parts(SEC, 10000, Instant::now());
    tracker.add_packet_at(5000, 0);
    tracker.add_packet_at(4000, 500 * MS);
    // 9000 + 2000 > 10000; dropping the first packet (sent at 0) makes room,
    // and it leaves the window 1 s after it was sent.
    assert_eq!(tracker.can_send_packet_at(2000, 600 * MS), Err(400 * MS));
    // 7000 bytes only fit once both packets are gone: the wait is until the
    // second one (sent at 500 ms) leaves the window.
    assert_eq!(tracker.can_send_packet_at(7000, 600 * MS), Err(900 * MS));
    // Exactly at the end of the wait the packet is still in the window.
    assert_eq!(tracker.can_send_packet_at(2000, SEC), Err(0));
    // One nanosecond later it has expired and the new packet fits.
    assert_eq!(tracker.can_send_packet_at(2000, SEC + 1), Ok(()));
    assert_eq!(tracker.packet_sizes(), vec![4000]);
    verify_bandwidth_match(&tracker);
}

#[test]
fn a_packet_larger_than_the_limit_waits_a_whole_window() {
    let mut tracker = UdpPacketTracker::from_parts(2 * SEC, 1000, Instant::now());
    assert_eq!(tracker.can_send_packet_at(1001, 0), Err(2 * SEC));
    tracker.add_packet_at(100, 0);
    assert_eq!(tracker.can_send_packet_at(5000, 10), Err(2 * SEC));
}

#[test]
fn a_packet_that_exactly_fills_the_limit_goes_out() {
    let mut tracker = UdpPacketTracker::from_parts(SEC, 1000, Instant::now());
    tracker.add_packet_at(400, 0);
    assert_eq!(tracker.can_send_packet_at(600, 1), Ok(()));
    assert_eq!(tracker.can_send_packet_at(601, 1), Err(SEC - 1));
}

#[test]
fn cleanup_drops_only_the_expired_prefix() {
    let mut tracker = UdpPacketTracker::from_parts(100, 1_000_000, Instant::now());
    tracker.add_packet_at(1, 0);
    tracker.add_packet_at(2, 50);
    tracker.add_packet_at(3, 120);
    // adding at 120 cleans up at 120: the first packet, 120 ns old, is gone
    assert_eq!(tracker.packet_sizes(), vec![2, 3]);
    tracker.cleanup_at(150);
    assert_eq!(tracker.packet_sizes(), vec![2, 3]);
    tracker.cleanup_at(151);
    assert_eq!(tracker.packet_sizes(), vec![3]);
    // cleaning up twice at the same time changes nothing more
    tracker.cleanup_at(151);
    assert_eq!(tracker.packet_sizes(), vec![3]);
    verify_bandwidth_match(&tracker);
    tracker.cleanup_at(221);
    assert_eq!(tracker.packet_count(), 0);
    assert_eq!(tracker.current_bandwidth(), 0);
}

#[test]
fn record_without_cleanup_keeps_old_packets() {
    let mut tracker = UdpPacketTracker::from_parts(10, 100, Instant::now());
    tracker.record_packet_at(5, 0);
    tracker.record_packet_at(6, 1000);
    assert_eq!(tracker.packet_sizes(), vec![5, 6]);
    assert_eq!(tracker.current_bandwidth(), 11);
}

#[test]
fn can_send_packet_reports_the_wait_as_a_duration() {
    let mut tracker = UdpPacketTracker::new(Duration::from_secs(100), 1000);
    tracker.add_packet(900);
    match tracker.can_send_packet(200) {
        Ok(()) => panic!("the packet does not fit"),
        Err(wait) => {
            assert!(wait <= Duration::from_secs(100));
            assert!(wait > Duration::from_secs(90));
        }
    }
    tracker.cleanup();
    assert_eq!(tracker.packet_sizes(), vec![900]);
}

#[test]
fn larger_packets_wait_at_least_as_long() {
    let mut tracker = UdpPacketTracker::from_parts(SEC, 10000, Instant::now());
    tracker.add_packet_at(3000, 0);
    tracker.add_packet_at(3000, 100 * MS);
    tracker.add_packet_at(3000, 200 * MS);
    let mut last = 0;
    for size in [1000usize, 2000, 4000, 5000, 7000, 10000, 10001] {
        let wait = match tracker.can_send_packet_at(size, 300 * MS) {
            Ok(()) => 0,
            Err(w) => w,
        };
        assert!(wait >= last);
        last = wait;
    }
    assert_eq!(last, SEC);
}

#[test]
fn the_public_wait_matches_the_decision() {
    let mut tracker = UdpPacketTracker::new(Duration::from_secs(1), 100);
    match tracker.can_send_packet(101) {
        Err(wait) => assert_eq!(wait, Duration::from_secs(1)),
        Ok(()) => panic!("an oversize packet never goes out"),
    }
    assert_eq!(tracker.can_send_packet(usize::MAX).is_err(), true);
}

#[test]
fn with_window_takes_seconds_and_nanoseconds() {
    let tracker = UdpPacketTracker::with_window(2, 500, 77);
    assert_eq!(tracker.window_nanos(), 2_000_000_500);
    assert_eq!(tracker.bandwidth_limit(), 77);
    assert_eq!(tracker.packet_count(), 0);
}
