use baliusd::leader::{gate_step, holder_identity, GateStep, LeaderFlag, LeaseState};
use baliusd::logging::{bulk_insert_statement, level_name, LogBuffer, LogLevel, LogRow};
use baliusd::operator::{build_hostname, worker_status};
use baliusd::strutil::u64_to_dec;

#[test]
fn holder_identity_names_shard_and_pod() {
    assert_eq!(holder_identity("cardano-preprod:t0", "pod-7"), "shard-cardano-preprod:t0-pod-pod-7");
}

#[test]
fn leader_gating_and_failover() {
    let ttl: u64 = 10_000;
    let mut lease = LeaseState::new();
    let mut flag_a = LeaderFlag::new();
    let mut flag_b = LeaderFlag::new();

    let got_a = lease.try_acquire_or_renew("shard-s-pod-a", 0, ttl);
    flag_a.on_renewal(Some(got_a));
    assert!(flag_a.is_leader());
    assert!(matches!(gate_step(flag_a.is_leader()), GateStep::RunFollower));

    let got_b = lease.try_acquire_or_renew("shard-s-pod-b", 5_000, ttl);
    flag_b.on_renewal(Some(got_b));
    assert!(!flag_b.is_leader());
    assert!(matches!(gate_step(flag_b.is_leader()), GateStep::StandBy));

    // Pod A stops renewing; once the grant expires, B's next attempt wins.
    let got_b = lease.try_acquire_or_renew("shard-s-pod-b", 10_000, ttl);
    flag_b.on_renewal(Some(got_b));
    assert!(flag_b.is_leader());
    assert!(matches!(gate_step(flag_b.is_leader()), GateStep::RunFollower));
}

#[test]
fn renewal_errors_do_not_flip_the_flag() {
    let mut flag = LeaderFlag::new();
    flag.on_renewal(Some(true));
    flag.on_renewal(None);
    assert!(flag.is_leader());
    flag.on_renewal(Some(false));
    assert!(!flag.is_leader());
    flag.on_renewal(None);
    assert!(!flag.is_leader());
}

#[test]
fn step_down_releases_only_the_holder() {
    let mut lease = LeaseState::new();
    assert!(lease.try_acquire_or_renew("a", 0, 1000));
    lease.step_down("b");
    assert!(!lease.try_acquire_or_renew("b", 10, 1000));
    lease.step_down("a");
    assert!(lease.try_acquire_or_renew("b", 20, 1000));
}

#[test]
fn log_buffer_flushes_at_its_threshold() {
    let mut buffer = LogBuffer::new(3);
    let row = |message: &str| LogRow {
        timestamp_ms: 1,
        worker: String::from("w"),
        level: level_name(LogLevel::Info),
        context: String::from("ctx"),
        message: String::from(message),
    };
    assert!(buffer.log(row("one")).is_none());
    assert!(buffer.log(row("two")).is_none());
    let batch = buffer.log(row("three")).expect("the third row must flush");
    assert_eq!(batch.len(), 3);
    assert_eq!(batch[0].message, "one");
    assert_eq!(batch[2].message, "three");
    assert!(buffer.log(row("four")).is_none());
}

#[test]
fn drain_hands_back_the_buffer_for_the_shutdown_flush() {
    let mut buffer = LogBuffer::new(10);
    let row = |message: &str| LogRow {
        timestamp_ms: 2,
        worker: String::from("w"),
        level: level_name(LogLevel::Warn),
        context: String::from("ctx"),
        message: String::from(message),
    };
    assert!(buffer.log(row("a")).is_none());
    assert!(buffer.log(row("b")).is_none());
    let rows = buffer.drain();
    assert_eq!(rows.len(), 2);
    assert_eq!(rows[1].message, "b");
    assert!(buffer.drain().is_empty());
}

#[test]
fn level_names_match_the_log_table() {
    assert_eq!(level_name(LogLevel::Info), "INFO");
    assert_eq!(level_name(LogLevel::Trace), "TRACE");
    assert_eq!(level_name(LogLevel::Debug), "DEBUG");
    assert_eq!(level_name(LogLevel::Error), "ERROR");
    assert_eq!(level_name(LogLevel::Warn), "WARN");
    assert_eq!(level_name(LogLevel::Critical), "CRITICAL");
}

#[test]
fn bulk_insert_statement_numbers_its_placeholders() {
    assert_eq!(
        bulk_insert_statement(2),
        "INSERT INTO logs (timestamp, worker, level, context, message) VALUES \
         ($1::TIMESTAMPTZ, $2::TEXT, $3::TEXT, $4::TEXT, $5::TEXT),\
         ($6::TIMESTAMPTZ, $7::TEXT, $8::TEXT, $9::TEXT, $10::TEXT)"
    );
    assert_eq!(
        bulk_insert_statement(0),
        "INSERT INTO logs (timestamp, worker, level, context, message) VALUES "
    );
}

#[test]
fn decimal_rendering_is_exact() {
    assert_eq!(u64_to_dec(0), "0");
    assert_eq!(u64_to_dec(10), "10");
    assert_eq!(u64_to_dec(12345), "12345");
    assert_eq!(u64_to_dec(u64::MAX), "18446744073709551615");
}

#[test]
fn hostnames_and_status_urls_are_exact() {
    let (hostname, hostname_key) = build_hostname("tok", "balius.dev");
    assert_eq!(hostname, "balius.dev");
    assert_eq!(hostname_key, "tok.balius.dev");
    let status = worker_status("w1", "tok", "balius.dev");
    assert_eq!(status.endpoint_url, "https://balius.dev/w1");
    assert_eq!(status.authenticated_endpoint_url.unwrap(), "https://tok.balius.dev/w1");
    assert_eq!(status.auth_token, "tok");
    assert!(status.error.is_none());
}

#[test]
fn status_computation_is_idempotent() {
    let first = worker_status("w1", "tok", "balius.dev");
    let second = worker_status("w1", "tok", "balius.dev");
    assert_eq!(first.endpoint_url, second.endpoint_url);
    assert_eq!(first.authenticated_endpoint_url, second.authenticated_endpoint_url);
    assert_eq!(first.auth_token, second.auth_token);
}
