use leaderboard::registry::ThrottleRegistry;
use leaderboard::throttle::{Throttle, ThrottleLimits, MAX_CONNECTIONS, TIME_INTERVAL_NANOS};

const SECOND: u128 = 1_000_000_000;

fn limits(max_requests: usize) -> ThrottleLimits {
    ThrottleLimits { max_requests, window_nanos: 60 * SECOND }
}

#[test]
fn standard_limits_are_fifteen_thousand_per_minute() {
    let standard = ThrottleLimits::standard();
    assert_eq!(standard.max_requests, 15000);
    assert_eq!(standard.window_nanos, 60_000_000_000);
    assert_eq!(MAX_CONNECTIONS, 15000);
    assert_eq!(TIME_INTERVAL_NANOS, 60 * SECOND);
}

#[test]
fn new_throttle_has_counted_nothing() {
    let t = Throttle::new(42);
    assert_eq!(t.count, 0);
    assert_eq!(t.last_reset, 42);
}

#[test]
fn window_admits_exactly_max_requests() {
    let l = limits(3);
    let mut t = Throttle::new(100);
    assert!(t.check_and_increment(&l, 100));
    assert!(t.check_and_increment(&l, 100 + SECOND));
    assert!(t.check_and_increment(&l, 100 + 59 * SECOND));
    assert_eq!(t.count, 3);
    assert!(!t.check_and_increment(&l, 100 + 60 * SECOND));
    assert!(!t.check_and_increment(&l, 100 + 60 * SECOND));
    assert_eq!(t.count, 3);
    assert_eq!(t.last_reset, 100);
}

#[test]
fn window_is_not_over_at_exactly_its_length() {
    let l = limits(1);
    let mut t = Throttle::new(0);
    assert!(t.check_and_increment(&l, 0));
    assert!(!t.check_and_increment(&l, 60 * SECOND));
    assert_eq!(t.last_reset, 0);
    assert!(t.check_and_increment(&l, 60 * SECOND + 1));
    assert_eq!(t.last_reset, 60 * SECOND + 1);
}

#[test]
fn expired_window_restarts_at_one() {
    let l = limits(5);
    let mut t = Throttle { count: 5, last_reset: 10 };
    assert!(!t.check_and_increment(&l, 20));
    let later = 10 + 60 * SECOND + 1;
    assert!(t.check_and_increment(&l, later));
    assert_eq!(t, Throttle { count: 1, last_reset: later });
}

#[test]
fn expired_window_restarts_whatever_the_count_was() {
    let l = limits(2);
    for count in [0usize, 1, 2, 7, usize::MAX] {
        let mut t = Throttle { count, last_reset: 0 };
        assert!(t.check_and_increment(&l, 61 * SECOND));
        assert_eq!(t, Throttle { count: 1, last_reset: 61 * SECOND });
    }
}

#[test]
fn clock_running_backwards_counts_as_no_time_passed() {
    let l = limits(2);
    let mut t = Throttle::new(1000);
    assert!(t.check_and_increment(&l, 5));
    assert_eq!(t, Throttle { count: 1, last_reset: 1000 });
}

#[test]
fn zero_limit_admits_nothing() {
    let l = limits(0);
    let mut t = Throttle::new(0);
    assert!(!t.check_and_increment(&l, 0));
    assert!(!t.check_and_increment(&l, 61 * SECOND));
    assert_eq!(t, Throttle { count: 0, last_reset: 61 * SECOND });
}

#[test]
fn registry_creates_a_throttle_on_first_sight() {
    let mut r = ThrottleRegistry::new(limits(2));
    assert_eq!(r.get(7), None);
    let slot = r.get_or_create(7, 500);
    assert_eq!(slot, Throttle { count: 0, last_reset: 500 });
    assert_eq!(r.get(7), Some(Throttle { count: 0, last_reset: 500 }));
    let again = r.get_or_create(7, 900);
    assert_eq!(again, Throttle { count: 0, last_reset: 500 });
    assert_eq!(r.configured_limits(), limits(2));
}

#[test]
fn registry_admits_max_requests_for_every_client() {
    let mut r = ThrottleRegistry::new(limits(2));
    for identity in [1u128, 2, u128::MAX] {
        assert!(r.admit_at(identity, 10));
        assert!(r.admit_at(identity, 11));
        assert!(!r.admit_at(identity, 12));
    }
    assert_eq!(r.get(1), Some(Throttle { count: 2, last_reset: 10 }));
}

#[test]
fn registry_clients_do_not_share_a_counter() {
    let mut r = ThrottleRegistry::new(limits(1));
    assert!(r.admit_at(1, 0));
    assert!(r.admit_at(2, 0));
    assert!(!r.admit_at(1, 1));
    assert!(!r.admit_at(2, 1));
    assert!(r.admit_at(1, 61 * SECOND));
    assert!(!r.admit_at(2, 60 * SECOND));
}

#[test]
fn sixty_first_request_within_a_minute_is_denied() {
    let mut r = ThrottleRegistry::new(limits(60));
    for i in 0..60u128 {
        assert!(r.admit_at(0x7f00_0001, i * SECOND / 2));
    }
    assert!(!r.admit_at(0x7f00_0001, 59 * SECOND));
}

#[test]
fn registry_reads_its_clock() {
    let clock = leaderboard::clock::Clock::start();
    let first = clock.now_nanos();
    let second = clock.now_nanos();
    assert!(first <= second);
    let mut r = ThrottleRegistry::new(limits(1));
    assert!(r.admit_now(9, &clock));
    assert!(!r.admit_now(9, &clock));
    assert_eq!(r.get(9).map(|t| t.count), Some(1));
}
