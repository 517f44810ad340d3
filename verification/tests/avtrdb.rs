use vrc_log::avtrdb::{
    AcceptOutcome, AvtrDB, FlushStep, FLUSH_INTERVAL_SECS, FLUSH_THRESHOLD, RETRY_BACKOFF_SECS,
    RETRY_LIMIT,
};

const T0: u64 = 1_700_000_000;

fn all_ok() -> Vec<u16> {
    vec![200; RETRY_LIMIT]
}

#[test]
fn test_send_avatar_id_adds_to_buffer() {
    let mut provider = AvtrDB::new(T0);

    provider.send_avatar_id("avatar_1", T0);

    assert_eq!(provider.buffer_len(), 1);
    assert_eq!(provider.snapshot()[0], "avatar_1");
}

#[test]
fn test_flush_buffer_clears_buffer_on_success() {
    let mut provider = AvtrDB::new(T0);

    // prefill buffer
    provider.send_avatar_id("avatar_1", T0);

    provider.flush_buffer(&all_ok(), T0).unwrap();

    assert_eq!(provider.buffer_len(), 0);
}

#[test]
fn test_send_avatar_id_triggers_flush_on_threshold() {
    let mut provider = AvtrDB::new(T0);

    let mut flushes = 0;
    for _ in 0..FLUSH_THRESHOLD {
        if provider.send_avatar_id("avatar", T0) == AcceptOutcome::FlushNeeded {
            flushes += 1;
        }
    }
    // Exactly one accept crossed the threshold.
    assert_eq!(flushes, 1);

    let result = provider.send_avatar_id("avatar_new", T0);
    assert_eq!(result, AcceptOutcome::FlushNeeded);

    provider.flush_buffer(&all_ok(), T0).unwrap();
    assert_eq!(provider.buffer_len(), 0); // buffer should be cleared
}

#[test]
fn test_periodic_flush_task_runs() {
    let mut provider = AvtrDB::new_with_flush_interval(T0, FLUSH_INTERVAL_SECS);

    provider.send_avatar_id("avatar_1", T0);

    // Not yet due just after the last flush.
    assert!(!provider.periodic_flush_due(T0 + 1));

    // Due once the interval has fully elapsed, even under the threshold.
    let later = T0 + FLUSH_INTERVAL_SECS;
    assert!(provider.periodic_flush_due(later));

    provider.flush_buffer(&all_ok(), later).unwrap();
    assert_eq!(provider.buffer_len(), 0);
    assert!(!provider.periodic_flush_due(later + 1));
}

#[test]
fn test_retry_on_failure() {
    let mut provider = AvtrDB::new(T0);

    provider.send_avatar_id("avatar_1", T0);

    // One server error, then success: exactly two requests were made.
    let statuses = vec![500, 200, 200, 200, 200];
    let report = provider.flush_buffer(&statuses, T0).unwrap();

    assert_eq!(report.attempts, 2);
    assert_eq!(report.sent, vec!["avatar_1".to_string()]);
    assert_eq!(provider.buffer_len(), 0);
}

#[test]
fn flush_failure_retains_buffer() {
    let mut provider = AvtrDB::new(T0);
    provider.send_avatar_id("avatar_1", T0);

    let statuses = vec![500, 429, 500, 503, 500];
    assert!(provider.flush_buffer(&statuses, T0).is_err());

    // The identifiers are kept for a later flush, not lost.
    assert_eq!(provider.buffer_len(), 1);
    assert_eq!(provider.snapshot(), vec!["avatar_1".to_string()]);
}

#[test]
fn flush_step_decisions() {
    assert_eq!(AvtrDB::flush_step(0, 200), FlushStep::Done);
    assert_eq!(AvtrDB::flush_step(0, 429), FlushStep::Backoff(RETRY_BACKOFF_SECS));
    assert_eq!(AvtrDB::flush_step(RETRY_LIMIT - 2, 500), FlushStep::Backoff(RETRY_BACKOFF_SECS));
    assert_eq!(AvtrDB::flush_step(RETRY_LIMIT - 1, 500), FlushStep::Abort);
}
