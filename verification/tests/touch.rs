use std::future::Future;
use std::sync::atomic::{AtomicBool, AtomicI64, Ordering};
use std::task::Poll;
use std::time::Duration;

use sccache_dist::touch::{
    append_chunk, attempt_outcome, bounded_grant_expiry, operation_deadline, run_until,
    unix_millis, AccessError, AttemptError, AttemptStep, GrantError, TouchClient, TouchConfig,
    TouchError, TouchExchange, TouchOperation, TouchStats, BF_PATCH_REVISION, MAX_BODY_BYTES,
    MAX_RESPONSE_BYTES, NATIVE_OPERATION_BUDGET, TOUCH_DEADLINE,
};

fn config(namespace: &str) -> TouchConfig {
    TouchConfig::from_parts(
        Some("http://unused.invalid".into()),
        Some("t".into()),
        namespace.into(),
    )
    .expect("config")
}

fn client() -> TouchClient {
    TouchClient::new(config("ns"))
}

/// Runs `transfer` for as long as the guard lets it.
fn guarded<T>(
    deadline: i64,
    now: impl Fn() -> i64,
    transfer: impl Future<Output = Result<T, String>>,
) -> Result<T, String> {
    let runtime = tokio::runtime::Builder::new_current_thread().enable_time().build().unwrap();
    let (mut guard, remaining) = run_until(deadline, now());
    runtime.block_on(async {
        let mut transfer = Box::pin(transfer);
        let polled = std::future::poll_fn(|cx| {
            if !guard.poll(now()) {
                return Poll::Ready(Err("deadline exhausted".to_owned()));
            }
            Future::poll(transfer.as_mut(), cx)
        });
        tokio::time::timeout(Duration::from_millis(remaining), polled)
            .await
            .map_err(|e| e.to_string())?
    })
}

#[test]
fn touch_config_from_parts_disabled_by_default() {
    // With neither variable provided the integration is off.
    assert!(TouchConfig::from_parts(None, None, "ns".into()).is_none());
    // Empty values are also disabled.
    assert!(TouchConfig::from_parts(Some(String::new()), Some("t".into()), "ns".into()).is_none());
}

#[test]
fn touch_config_namespace_from_cache_configuration() {
    let config = TouchConfig::from_parts(
        Some("http://unused.invalid".into()),
        Some("t".into()),
        "billdfaster/v1".into(),
    )
    .expect("config");
    let body = config
        .serialize_request("0123456789abcdef0123456789abcdef", TouchOperation::Read)
        .expect("serialization");
    assert!(body.contains("\"namespace\":\"billdfaster/v1\""), "{body}");
}

#[test]
fn touch_request_serialization_bounds() {
    let config = TouchConfig::from_parts(
        Some("http://unused.invalid".into()),
        Some("t".into()),
        "billdfaster/v1/".into(),
    )
    .expect("config");
    let key = "0123456789abcdef0123456789abcdef";
    let body = config
        .serialize_request(key, TouchOperation::Read)
        .expect("serialization");
    assert!(body.len() <= MAX_BODY_BYTES);
    assert!(body.contains("\"operation\":\"read\""));
    assert!(body.contains("\"operation\""));
    assert!(!body.contains("write"));
    assert!(config
        .serialize_request(&"k".repeat(MAX_BODY_BYTES), TouchOperation::Read)
        .is_err());
}

#[test]
fn bounded_clock_skew_never_extends_local_grant() {
    assert_eq!(bounded_grant_expiry(70_008, 10_000, 9_900).unwrap(), 69_900);
    assert_eq!(bounded_grant_expiry(68_000, 10_000, 9_900).unwrap(), 68_000);
    assert!(bounded_grant_expiry(72_001, 10_000, 9_900).is_err());
    assert!(bounded_grant_expiry(10_000, 10_000, 9_900).is_err());
    assert!(bounded_grant_expiry(i64::MAX, -1, -1).is_err());
    assert!(bounded_grant_expiry(120_001, 60_000, 0).is_err());
    assert!(bounded_grant_expiry(70_000, 9_999, 10_000).is_err());
}

#[test]
fn expired_operation_cannot_resume_transfer() {
    let now = AtomicI64::new(10_000);
    let transfer_completed = AtomicBool::new(false);
    let transfer = async {
        now.store(30_000, Ordering::SeqCst);
        tokio::task::yield_now().await;
        transfer_completed.store(true, Ordering::SeqCst);
        Ok(())
    };
    assert!(guarded(20_000, || now.load(Ordering::SeqCst), transfer).is_err());
    assert!(!transfer_completed.load(Ordering::SeqCst));
}

#[test]
fn expired_operation_never_starts_transfer() {
    let started = AtomicBool::new(false);
    let transfer = async {
        started.store(true, Ordering::SeqCst);
        Ok(())
    };
    assert!(guarded(20_000, || 20_000, transfer).is_err());
    assert!(!started.load(Ordering::SeqCst));
}

#[test]
fn an_operation_within_its_time_completes() {
    assert_eq!(guarded(20_000, || 10_000, async { Ok(5) }), Ok(5));
}

#[test]
fn a_configuration_needs_endpoint_and_token() {
    let s = |t: &str| Some(t.to_owned());
    assert!(TouchConfig::from_parts(s("e"), None, "ns".into()).is_none());
    assert!(TouchConfig::from_parts(None, s("t"), "ns".into()).is_none());
    assert!(TouchConfig::from_parts(s("e"), s(""), "ns".into()).is_none());
    let config = TouchConfig::from_parts(s("e"), s("t"), String::new()).unwrap();
    assert_eq!((config.endpoint.as_str(), config.token.as_str()), ("e", "t"));
    assert_eq!(config.namespace, "");
}

#[test]
fn requests_are_written_exactly() {
    assert_eq!(
        config("a/b").serialize_request("k1", TouchOperation::Read).unwrap(),
        "{\"namespace\":\"a/b\",\"key\":\"k1\",\"operation\":\"read\"}"
    );
    assert_eq!(
        config("").serialize_request("\"\\\n\u{8}\u{c}\r\t\u{1f}\u{7f}\u{e9}", TouchOperation::Write).unwrap(),
        "{\"namespace\":\"\",\"key\":\"\\\"\\\\\\n\\b\\f\\r\\t\\u001f\u{7f}\u{e9}\",\"operation\":\"write\"}"
    );
}

#[test]
fn requests_are_measured_in_bytes() {
    let empty = config("").serialize_request("", TouchOperation::Read).unwrap().len();
    let room = MAX_BODY_BYTES - empty;
    let fits = config("").serialize_request(&"k".repeat(room), TouchOperation::Read);
    assert_eq!(fits.unwrap().len(), MAX_BODY_BYTES);
    assert_eq!(
        config("").serialize_request(&"k".repeat(room + 1), TouchOperation::Read),
        Err(TouchError::BodyTooLarge { bytes: MAX_BODY_BYTES + 1 })
    );
    assert_eq!(
        config("").serialize_request(&"\u{e9}".repeat(room / 2 + 1), TouchOperation::Read),
        Err(TouchError::BodyTooLarge { bytes: empty + 2 * (room / 2 + 1) })
    );
}

#[test]
fn different_objects_have_different_requests() {
    let a = config("a").serialize_request("b\",\"key\":\"c", TouchOperation::Read).unwrap();
    let b = config("a\",\"key\":\"b").serialize_request("c", TouchOperation::Read).unwrap();
    assert_ne!(a, b);
}

#[test]
fn counters_count() {
    let mut stats = TouchStats::default();
    stats.record_ok();
    stats.record_failed();
    stats.record_failed();
    assert_eq!(stats.snapshot(), (1, 2));
    let mut full = TouchStats { touches_ok: u64::MAX, touches_failed: u64::MAX };
    full.record_ok();
    full.record_failed();
    assert_eq!(full.snapshot(), (0, 0));
    assert_eq!(BF_PATCH_REVISION, "3");
}

#[test]
fn the_clock_reads_in_milliseconds() {
    assert_eq!(unix_millis(Some(1_700_000_000_123)), 1_700_000_000_123);
    assert_eq!(unix_millis(None), i64::MIN);
    assert_eq!(unix_millis(Some(1 << 63)), i64::MIN);
}

#[test]
fn an_exchange_has_five_minutes() {
    let exchange = client().touch("k", TouchOperation::Read, 1_000).unwrap();
    assert_eq!(exchange.deadline, 301_000);
    assert_eq!(exchange.delay, 250);
    assert!(exchange.may_poll(300_999));
    assert!(!exchange.may_poll(301_000));
    assert_eq!(
        client().touch("k", TouchOperation::Read, i64::MAX - 299_999),
        Err(TouchError::DeadlineOverflow)
    );
    assert!(client().touch("k", TouchOperation::Read, i64::MAX - 300_000).is_ok());
    assert_eq!(
        client().touch(&"k".repeat(3000), TouchOperation::Read, 0),
        Err(TouchError::BodyTooLarge { bytes: 3046 })
    );
}

#[test]
fn no_attempt_starts_after_the_deadline() {
    let mut client = client();
    let exchange = client.touch("k", TouchOperation::Read, 0).unwrap();
    assert_eq!(client.start_attempt(&exchange, 299_999), Ok(()));
    assert_eq!(client.stats_snapshot(), (0, 0));
    assert_eq!(
        client.start_attempt(&exchange, 300_000),
        Err(TouchError::DeadlineExhausted)
    );
    assert_eq!(client.stats_snapshot(), (0, 1));
}

#[test]
fn a_grant_ends_an_exchange() {
    let mut client = client();
    let mut exchange = client.touch("k", TouchOperation::Read, 0).unwrap();
    assert_eq!(
        client.finish_attempt::<&str>(&mut exchange, Ok(77), 900_000),
        AttemptStep::Granted { expires_at_ms: 77 }
    );
    assert_eq!(client.stats_snapshot(), (1, 0));
}

#[test]
fn retries_wait_longer_and_longer() {
    let mut client = client();
    let mut exchange = client.touch("k", TouchOperation::Read, 0).unwrap();
    let mut now = 0;
    let mut waits = Vec::new();
    loop {
        match client.finish_attempt(&mut exchange, Err("down"), now) {
            AttemptStep::RetryAfter { delay } => {
                assert!(now + delay < exchange.deadline);
                waits.push(delay);
                now += delay;
            }
            step => {
                assert_eq!(step, AttemptStep::Failed { error: "down" });
                break;
            }
        }
    }
    assert_eq!(waits[..7], [250, 500, 1_000, 2_000, 4_000, 5_000, 5_000]);
    assert_eq!(waits.len(), 63);
    assert_eq!(client.stats_snapshot(), (0, 1));
}

#[test]
fn a_retry_at_the_deadline_is_too_late() {
    let mut client = client();
    let exchange = || TouchExchange { body: String::new(), deadline: 1_000, delay: 250 };
    assert_eq!(
        client.finish_attempt(&mut exchange(), Err(()), 749),
        AttemptStep::RetryAfter { delay: 250 }
    );
    assert_eq!(
        client.finish_attempt(&mut exchange(), Err(()), 750),
        AttemptStep::Failed { error: () }
    );
    assert_eq!(
        client.finish_attempt(&mut exchange(), Err(()), i64::MAX),
        AttemptStep::Failed { error: () }
    );
}

#[test]
fn replies_are_bounded() {
    let mut full = Vec::new();
    assert_eq!(append_chunk(&mut full, &[1; 4000]), Ok(()));
    assert_eq!(append_chunk(&mut full, &[2; 97]), Err(TouchError::ResponseTooLarge));
    assert_eq!(full.len(), 4000);
    assert_eq!(append_chunk(&mut full, &[2; 96]), Ok(()));
    assert_eq!(full.len(), MAX_RESPONSE_BYTES);
    assert_eq!((full[3999], full[4000]), (1, 2));
    assert_eq!(append_chunk(&mut full, &[]), Ok(()));
    assert_eq!(append_chunk(&mut full, &[3]), Err(TouchError::ResponseTooLarge));
}

#[test]
fn each_refused_grant_says_why() {
    assert_eq!(bounded_grant_expiry(i64::MAX, -1, -1), Err(GrantError::InvalidExpiry));
    assert_eq!(bounded_grant_expiry(10, 10, 10), Err(GrantError::OutsideLifetime));
    assert_eq!(bounded_grant_expiry(62_011, 10, 10), Err(GrantError::OutsideLifetime));
    assert_eq!(bounded_grant_expiry(62_010, 10, 10), Ok(60_010));
    assert_eq!(bounded_grant_expiry(20, 10, 11), Err(GrantError::OutsideLifetime));
    assert_eq!(bounded_grant_expiry(60_001, 60_000, 0), Err(GrantError::ExpiredInTransit));
    assert_eq!(bounded_grant_expiry(60_000, 59_999, 0), Ok(60_000));
    assert_eq!(bounded_grant_expiry(i64::MAX, i64::MAX - 1, i64::MAX - 1), Ok(i64::MAX));
}

#[test]
fn a_prompt_grant_is_good_until_it_expires() {
    let local = bounded_grant_expiry(50_000, 1_000, 1_000).unwrap();
    assert_eq!(local, 50_000);
    let client = client();
    assert_eq!(client.grant_remaining_millis(local, 49_999), Ok(1));
    assert_eq!(client.grant_remaining_millis(local, 50_000), Err(GrantError::Expired));
    assert_eq!(client.grant_remaining_millis(1, i64::MIN), Err(GrantError::InvalidExpiry));
}

#[test]
fn access_needs_a_grant_that_is_good() {
    let mut client = client();
    assert_eq!(client.access::<&str>(Ok(100), 40), Ok(60));
    assert_eq!(
        client.access::<&str>(Ok(100), 100),
        Err(AccessError::Grant { error: GrantError::Expired })
    );
    assert_eq!(
        client.access(Err("down"), 0),
        Err(AccessError::Touch { failure: "down" })
    );
}

#[test]
fn a_grant_that_expired_before_access_counts_as_a_failure() {
    let mut client = client();
    let mut exchange = client.touch("k", TouchOperation::Read, 0).unwrap();
    client.start_attempt(&exchange, 0).unwrap();
    let outcome = attempt_outcome(true, Some(50_000), 10, 0);
    let step = client.finish_attempt(&mut exchange, outcome, 10);
    assert_eq!(step, AttemptStep::Granted { expires_at_ms: 50_000 });
    assert_eq!(client.stats_snapshot(), (1, 0));
    assert_eq!(client.access::<()>(Ok(50_000), 49_999), Ok(1));
    assert_eq!(client.stats_snapshot(), (1, 0));
    assert!(client.access::<()>(Ok(50_000), 50_000).is_err());
    assert_eq!(client.stats_snapshot(), (1, 1));
    assert!(client.access::<()>(Ok(1), i64::MIN).is_err());
    assert_eq!(client.stats_snapshot(), (1, 2));
    // An exchange that failed has been counted already.
    assert!(client.access(Err(()), 0).is_err());
    assert_eq!(client.stats_snapshot(), (1, 2));
}

#[test]
fn an_attempt_may_be_waited_for_until_the_deadline() {
    let mut client = client();
    let mut exchange = client.touch("k", TouchOperation::Read, 1_000).unwrap();
    assert_eq!(exchange.time_left(1_000), 300_000);
    assert_eq!(exchange.time_left(300_999), 1);
    assert_eq!(exchange.time_left(301_000), 0);
    assert_eq!(exchange.time_left(i64::MAX), 0);
    assert_eq!(exchange.time_left(i64::MIN), i64::MAX as u64);
    // The gateway never answers.
    client.start_attempt(&exchange, 1_000).unwrap();
    let given_up = 1_000 + exchange.time_left(1_000) as i64;
    assert_eq!(
        client.finish_attempt(&mut exchange, Err("silent"), given_up),
        AttemptStep::Failed { error: "silent" }
    );
    assert_eq!(client.stats_snapshot(), (0, 1));
}

#[test]
fn attempts_come_to_what_the_reply_says() {
    assert_eq!(attempt_outcome(true, Some(70_008), 10_000, 9_900), Ok(69_900));
    assert_eq!(attempt_outcome(false, Some(70_008), 10_000, 9_900), Err(AttemptError::Status));
    assert_eq!(attempt_outcome(false, None, 10_000, 9_900), Err(AttemptError::Status));
    assert_eq!(attempt_outcome(true, None, 10_000, 9_900), Err(AttemptError::Malformed));
    assert_eq!(
        attempt_outcome(true, Some(10_000), 10_000, 9_900),
        Err(AttemptError::Grant { error: GrantError::OutsideLifetime })
    );
}

#[test]
fn the_client_proves_who_it_is() {
    assert_eq!(config("ns").authorization(), "Bearer t");
}

#[test]
fn a_request_that_is_too_large_is_not_counted() {
    let client = client();
    assert!(client.touch(&"k".repeat(3000), TouchOperation::Read, 0).is_err());
    assert_eq!(client.stats_snapshot(), (0, 0));
}

#[test]
fn an_operation_has_twenty_minutes() {
    assert_eq!(NATIVE_OPERATION_BUDGET, 20 * 60 * 1_000);
    assert_eq!(TOUCH_DEADLINE, 300_000);
    assert_eq!(operation_deadline(5), 1_200_005);
    assert_eq!(operation_deadline(i64::MAX - 3), i64::MAX);
    assert_eq!(run_until(operation_deadline(5), 5).1, 1_200_000);
    assert_eq!(run_until(5, 5).1, 0);
    assert_eq!(run_until(5, 6).1, 0);
    assert_eq!(run_until(i64::MAX, i64::MIN).1, i64::MAX as u64);
    assert_eq!(run_until(i64::MIN, i64::MAX).1, 0);
}

#[test]
fn an_operation_only_moves_forward() {
    let (mut guard, _) = run_until(100, 10);
    assert!(guard.poll(10));
    assert!(guard.poll(50));
    assert!(!guard.poll(49));
    assert!(guard.poll(50));
    assert!(guard.poll(99));
    assert!(!guard.poll(100));
    assert_eq!(guard.last_now, 99);
}
