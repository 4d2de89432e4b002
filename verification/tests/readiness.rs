use rumpelpod::config::RetryPolicy;
use rumpelpod::readiness::ConnectEvent;
use rumpelpod::readiness::ConnectStep;
use rumpelpod::readiness::Readiness;
use rumpelpod::readiness::ANSWER_TIMEOUT_SECS;
use rumpelpod::readiness::CONNECT_TIMEOUT_SECS;
use rumpelpod::readiness::READ_TIMEOUT_SECS;

#[test]
fn pauses_double_up_to_the_longest() {
    let mut readiness = Readiness::new();
    let mut pauses = Vec::new();
    for attempt in 1..=9u32 {
        match readiness.step("http://pod", ConnectEvent::Unreachable("refused".to_string())) {
            ConnectStep::Retry { next, progress, pause_millis } => {
                assert_eq!(
                    progress,
                    format!("waiting for container server (attempt {attempt}: refused)...")
                );
                pauses.push(pause_millis);
                readiness = next;
            }
            other => panic!("{other:?}"),
        }
    }
    assert_eq!(pauses, [100, 200, 400, 800, 1600, 3200, 5000, 5000, 5000]);
}

#[test]
fn an_opened_stream_is_read() {
    assert!(matches!(
        Readiness::new().step("http://pod", ConnectEvent::Opened),
        ConnectStep::ReadGreeting
    ));
}

#[test]
fn a_refusal_or_the_deadline_ends_the_attempts() {
    assert!(matches!(
        Readiness::new().step("http://pod", ConnectEvent::Refused("401".to_string())),
        ConnectStep::Fail(ref failure)
            if failure.message == "opening readiness stream"
                && failure.cause.as_deref() == Some("401")
    ));
    assert!(matches!(
        Readiness::new().step("http://pod", ConnectEvent::DeadlinePassed("elapsed".to_string())),
        ConnectStep::Fail(ref failure)
            if failure.message == "container server at http://pod did not respond within 30 seconds"
                && failure.cause.as_deref() == Some("elapsed")
    ));
}

#[test]
fn silence_is_noticed_within_the_time_for_an_answer() {
    assert_eq!(CONNECT_TIMEOUT_SECS, 10);
    assert_eq!(READ_TIMEOUT_SECS, 30);
    assert_eq!(ANSWER_TIMEOUT_SECS, 30);
}

#[test]
fn progress_is_for_waiting_users() {
    assert!(RetryPolicy::UserBlocking.shows_progress());
    assert!(!RetryPolicy::Background.shows_progress());
}
