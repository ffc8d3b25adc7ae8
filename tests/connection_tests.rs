use rust_ftp::connection::{ConnectionManager, FailureKind};
use rust_ftp::pipeline::{effective_workers, should_warn_connection_failure};

#[test]
fn classifies_rejection_ignoring_case() {
    assert!(ConnectionManager::is_server_rejection_error("Connection failed: CONNECTION REFUSED"));
    assert!(ConnectionManager::is_server_rejection_error("421 Service not available"));
    assert!(ConnectionManager::is_server_rejection_error("530 Not logged in"));
    assert!(!ConnectionManager::is_server_rejection_error("Timeout while reading"));
}

#[test]
fn classifies_network_errors() {
    assert!(ConnectionManager::is_network_error("Read TIMEOUT"));
    assert!(ConnectionManager::is_network_error("Broken pipe (os error 32)"));
    assert!(!ConnectionManager::is_network_error("permission denied"));
    assert_eq!(ConnectionManager::classify_lowered("connection reset by peer"), FailureKind::Network);
    assert_eq!(ConnectionManager::classify_lowered("server busy"), FailureKind::ServerRejection);
    assert_eq!(ConnectionManager::classify_lowered("no such file"), FailureKind::Generic);
}

#[test]
fn server_rejection_throttling_fast_mode() {
    let mut m = ConnectionManager::new();
    let (r1, d1) = m.record_failure("421 Service not available", 3000, 1, 0);
    let (r2, d2) = m.record_failure("421 Service not available", 3000, 2, 0);
    let (r3, d3) = m.record_failure("421 Service not available", 3000, 3, 0);
    assert!(r1 && r2 && r3);
    assert_eq!((d1, d2, d3), (2000, 3000, 4500));
    assert!(m.should_reduce_connections());
    assert_eq!(m.get_failure_count(), 3);
    assert_eq!(effective_workers(8, m.should_reduce_connections()), 2);
    assert_eq!(effective_workers(3, true), 1);
}

#[test]
fn jitter_stays_within_a_quarter_and_the_cap() {
    let mut m = ConnectionManager::new();
    let (_, d1) = m.record_failure("421", 3000, 0, 499);
    assert_eq!(d1, 2000 + 499 % 501);
    let (_, d2) = m.record_failure("421", 3000, 0, 750);
    assert_eq!(d2, 3750);
    let (_, d3) = m.record_failure("421", 3000, 0, 1000);
    assert_eq!(d3, 5000);
}

#[test]
fn normal_mode_doubles_up_to_the_cap() {
    let mut m = ConnectionManager::new();
    let mut delays = Vec::new();
    for _ in 0..6 {
        let (rejected, d) = m.record_failure("connection timeout", 60000, 0, 0);
        assert!(!rejected);
        delays.push(d);
    }
    assert_eq!(delays, vec![5000, 10000, 20000, 40000, 80000, 160000]);
    let (_, d7) = m.record_failure("connection timeout", 60000, 0, 0);
    assert_eq!(d7, 300000);
    assert!(!m.should_reduce_connections());
    let (_, g) = ConnectionManager::new().record_failure("weird", 60000, 0, 0);
    assert_eq!(g, 10000);
    assert_eq!(ConnectionManager::backoff_delay_ms(FailureKind::Generic, 1000, 4, 0), 3375);
}

#[test]
fn backoff_is_non_decreasing_for_one_class() {
    for seed in [0u64, 7, 123, 999_999] {
        for sync in [0i64, 3000, 4999, 5000, 60000] {
            for kind in [FailureKind::ServerRejection, FailureKind::Network, FailureKind::Generic] {
                let mut prev = 0;
                for n in 1..12u64 {
                    let d = ConnectionManager::backoff_delay_ms(kind, sync, n, seed);
                    assert!(d >= prev);
                    prev = d;
                }
            }
        }
    }
}

#[test]
fn success_clears_counter_and_flag() {
    let mut m = ConnectionManager::new();
    m.record_failure("too many connections", 10000, 5, 0);
    assert_eq!(m.last_failure_ms, Some(5));
    m.record_success();
    assert_eq!(m.get_failure_count(), 0);
    assert!(!m.should_reduce_connections());
    assert_eq!(m.last_failure_ms, None);
}

#[test]
fn record_failure_now_uses_the_clock_within_bounds() {
    let mut m = ConnectionManager::new();
    let (rejected, d) = m.record_failure_now("Service Unavailable", 2000);
    assert!(rejected);
    assert!(d >= 2000 && d <= 2500);
    assert!(m.last_failure_ms.is_some());
}

#[test]
fn second_connection_failure_warns() {
    assert!(!should_warn_connection_failure(1));
    assert!(should_warn_connection_failure(2));
}
