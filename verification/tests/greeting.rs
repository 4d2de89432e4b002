use rumpelpod::greeting::read_state_line;
use rumpelpod::greeting::state_result;
use rumpelpod::greeting::Greeting;
use rumpelpod::greeting::GreetingError;
use rumpelpod::greeting::GreetingStep;
use rumpelpod::outside::JsonMember;
use rumpelpod::readiness::readiness_of;
use rumpelpod::readiness::NotReady;

/// Feeds `reads` to a reader at the start of a stream: the progress reported,
/// and the outcome if there was one.
fn run(reads: &[Result<&str, &str>]) -> (Vec<String>, Option<Result<Option<String>, GreetingError>>) {
    let mut greeting = Greeting::new();
    let mut reported = Vec::new();
    for read in reads {
        let read = match read {
            Ok(line) => Ok(line.to_string()),
            Err(cause) => Err(cause.to_string()),
        };
        match greeting.step(read) {
            GreetingStep::ReadOn { next, progress } => {
                reported.extend(progress);
                greeting = next;
            }
            GreetingStep::Done(outcome) => return (reported, Some(outcome)),
        }
    }
    (reported, None)
}

fn failure(reads: &[Result<&str, &str>]) -> String {
    match run(reads).1 {
        Some(Err(error)) => error.failure().message,
        other => panic!("no failure: {other:?}"),
    }
}

#[test]
fn ready_container_is_greeted() {
    let (progress, outcome) = run(&[
        Ok(": heartbeat\n"),
        Ok("\n"),
        Ok("event: progress\n"),
        Ok("data: cloning\n"),
        Ok("\n"),
        Ok("event: state\r\n"),
        Ok("data: {\"lifecycle_error\": null}\r\n"),
        Ok("\r\n"),
    ]);
    assert_eq!(progress, ["cloning"]);
    assert!(matches!(outcome, Some(Ok(None))));
}

#[test]
fn lifecycle_error_is_carried() {
    let (_, outcome) = run(&[
        Ok("event: state\n"),
        Ok("data: {\"lifecycle_error\": \"postCreate failed\"}\n"),
        Ok("\n"),
    ]);
    assert!(matches!(outcome, Some(Ok(Some(ref error))) if error == "postCreate failed"));
}

#[test]
fn state_without_a_text_error_is_ready() {
    for data in ["data: {}", "data: {\"lifecycle_error\": 3}", "data: []", "data: 7"] {
        assert!(matches!(read_state_line(data), Ok(None)), "{data}");
    }
}

#[test]
fn broken_state_events_are_told_apart() {
    assert!(matches!(read_state_line("{}"), Err(GreetingError::Malformed)));
    assert!(matches!(read_state_line("data: {"), Err(GreetingError::Parse(_))));
    assert_eq!(failure(&[Ok("event: state\n"), Ok("{}\n"), Ok("\n")]), "malformed state event");
    assert_eq!(failure(&[Ok("event: state\n"), Ok("data: {\n"), Ok("\n")]), "parsing state event");
}

#[test]
fn only_a_text_is_an_error() {
    assert!(matches!(state_result(Ok(JsonMember::Absent)), Ok(None)));
    assert!(matches!(state_result(Ok(JsonMember::Other)), Ok(None)));
    let text = JsonMember::Text("x".to_string());
    assert!(matches!(state_result(Ok(text)), Ok(Some(ref e)) if e == "x"));
    assert!(matches!(
        state_result(Err("eof".to_string())),
        Err(GreetingError::Parse(ref cause)) if cause == "eof"
    ));
}

#[test]
fn failed_parses_keep_their_cause() {
    let failure = read_state_line("data: {").unwrap_err().failure();
    assert_eq!(failure.message, "parsing state event");
    assert_eq!(failure.cause.as_deref(), Some("EOF while parsing an object at line 1 column 1"));
}

#[test]
fn progress_is_that_ahead_of_the_state() {
    let (progress, outcome) = run(&[
        Ok("event: progress\n"),
        Ok("data: one\n"),
        Ok("\n"),
        Ok(": heartbeat\n"),
        Ok("event: progress\n"),
        Ok("data: two\n"),
        Ok("\n"),
        Ok("event: state\n"),
        Ok("data: {}\n"),
        Ok("\n"),
        Ok("event: progress\n"),
        Ok("data: three\n"),
        Ok("\n"),
    ]);
    assert_eq!(progress, ["one", "two"]);
    assert!(matches!(outcome, Some(Ok(None))));
}

#[test]
fn containers_that_are_not_ready_say_why() {
    assert_eq!(NotReady::Lifecycle("boom".to_string()).failure().text(), "boom");
    let lost = GreetingError::Read { context: "reading event stream", cause: "reset".to_string() };
    assert_eq!(NotReady::Greeting(lost).failure().text(), "reading event stream: reset");
}

#[test]
fn failed_reads_name_what_was_read() {
    let cases: [(&[Result<&str, &str>], &str); 5] = [
        (&[Err("reset")], "reading event stream"),
        (&[Ok("event: state\n"), Err("reset")], "reading state event data"),
        (
            &[Ok("event: state\n"), Ok("data: {}\n"), Err("reset")],
            "reading state event separator",
        ),
        (&[Ok("event: progress\n"), Err("reset")], "reading progress event data"),
        (
            &[Ok("event: progress\n"), Ok("data: x\n"), Err("reset")],
            "reading progress event separator",
        ),
    ];
    for (reads, context) in cases {
        match run(reads).1 {
            Some(Err(GreetingError::Read { context: found, cause })) => {
                assert_eq!(found, context);
                assert_eq!(cause, "reset");
            }
            other => panic!("{other:?}"),
        }
        assert_eq!(failure(reads), context);
    }
}

#[test]
fn heartbeats_change_nothing() {
    let (progress, outcome) = run(&[Ok(": x\n"), Ok("\n"), Ok("event: other\n"), Ok("data: y\n")]);
    assert!(progress.is_empty());
    assert!(outcome.is_none());
}

#[test]
fn progress_without_data_is_not_forwarded() {
    let (progress, outcome) = run(&[
        Ok("event: progress\n"),
        Ok("retry: 3\n"),
        Ok("\n"),
        Ok("event: progress\n"),
        Ok("  data: second\n"),
        Ok("\n"),
    ]);
    assert_eq!(progress, ["second"]);
    assert!(outcome.is_none());
}

#[test]
fn end_of_stream_is_no_greeting() {
    assert_eq!(failure(&[Ok("")]), "event stream closed before state event");
    assert_eq!(
        failure(&[Ok("event: progress\n"), Ok(""), Ok(""), Ok("")]),
        "event stream closed before state event"
    );
    assert_eq!(failure(&[Ok("event: state\n"), Ok(""), Ok("")]), "malformed state event");
}

#[test]
fn lost_streams_are_named() {
    assert!(failure(&[Ok("")]).contains("event stream"));
    assert!(failure(&[Err("timed out")]).contains("event stream"));
}

#[test]
fn reads_behind_the_state_event_are_not_looked_at() {
    let (_, outcome) = run(&[
        Ok("event: state\n"),
        Ok("data: {}\n"),
        Ok("\n"),
        Err("never read"),
    ]);
    assert!(matches!(outcome, Some(Ok(None))));
}

#[test]
fn reading_in_parts_is_reading_the_whole() {
    let mut greeting = Greeting::new();
    greeting = match greeting.step(Ok("event: progress\n".to_string())) {
        GreetingStep::ReadOn { next, .. } => next,
        GreetingStep::Done(_) => panic!("done"),
    };
    assert_eq!(greeting.context(), "reading progress event data");
    greeting = match greeting.step(Ok("data: a\n".to_string())) {
        GreetingStep::ReadOn { next, .. } => next,
        GreetingStep::Done(_) => panic!("done"),
    };
    match greeting.step(Ok("\n".to_string())) {
        GreetingStep::ReadOn { progress, .. } => assert_eq!(progress.as_deref(), Some("a")),
        GreetingStep::Done(_) => panic!("done"),
    }
}

#[test]
fn only_a_clean_greeting_is_ready() {
    assert!(readiness_of(Ok(None)).is_ok());
    assert!(matches!(
        readiness_of(Ok(Some("boom".to_string()))),
        Err(NotReady::Lifecycle(ref error)) if error == "boom"
    ));
    assert!(matches!(
        readiness_of(Err(GreetingError::Closed)),
        Err(NotReady::Greeting(GreetingError::Closed))
    ));
}
