use rumpelpod::command::not_started;
use rumpelpod::command::success_output;
use rumpelpod::command::Finished;
use rumpelpod::command::KillOutcome;
use rumpelpod::command::OutputLine;
use rumpelpod::command::OutputStream;
use rumpelpod::command::ProcessGroup;
use rumpelpod::command::Source;

fn finished(code: Option<i32>, stdout: &[u8], stderr: &[u8]) -> Finished {
    Finished {
        code,
        status: "exit status: 3".to_string(),
        stdout: stdout.to_vec(),
        stderr: stderr.to_vec(),
    }
}

#[test]
fn successful_output_is_handed_on() {
    assert_eq!(success_output("git status", finished(Some(0), b"clean", b"noise")), Ok(b"clean".to_vec()));
}

#[test]
fn failed_commands_are_shown_with_their_output() {
    assert_eq!(
        success_output("\"git\" \"status\"", finished(Some(3), b"out\n", b"err\xff")),
        Err("$ \"git\" \"status\"\nout\nerr\u{fffd}\nexit status: 3".to_string())
    );
    assert!(success_output("x", finished(None, b"", b"")).is_err());
}

#[test]
fn a_failed_command_keeps_its_group_to_be_killed() {
    let mut group = ProcessGroup::new(Some(42));
    assert_eq!(group.target(), Some(42));
    group.completed(false);
    assert_eq!(group.target(), Some(42));
    group.completed(true);
    assert_eq!(group.target(), None);
    assert_eq!(ProcessGroup::new(None).target(), None);
}

#[test]
fn only_real_kill_failures_are_reported() {
    assert_eq!(ProcessGroup::kill_report(42, KillOutcome::Killed), None);
    assert_eq!(ProcessGroup::kill_report(42, KillOutcome::NoSuchProcess), None);
    assert_eq!(
        ProcessGroup::kill_report(42, KillOutcome::Failed("EPERM".to_string())),
        Some("failed to kill cancelled command group 42: EPERM".to_string())
    );
}

#[test]
fn output_is_kept_in_the_order_of_arrival() {
    let mut stream = OutputStream::new();
    let first = stream.arrived(Source::Stdout, Some("one".to_string()));
    assert!(matches!(first, Some(OutputLine::Stdout(ref line)) if line == "one"));
    let second = stream.arrived(Source::Stderr, Some("two".to_string()));
    assert!(matches!(second, Some(OutputLine::Stderr(ref line)) if line == "two"));
    assert!(stream.arrived(Source::Stdout, None).is_none());
    assert!(!stream.is_open(Source::Stdout));
    assert!(stream.is_open(Source::Stderr));
    assert!(stream.arrived(Source::Stderr, Some("three".to_string())).is_some());
    assert!(stream.arrived(Source::Stderr, None).is_none());
    assert!(!stream.is_open(Source::Stderr));
    assert_eq!(
        stream.finish(false, "exit status: 1"),
        Err("command failed (exit status: 1):\none\ntwo\nthree\n".to_string())
    );
}

#[test]
fn a_successful_stream_says_nothing() {
    let mut stream = OutputStream::new();
    stream.arrived(Source::Stdout, Some("one".to_string()));
    assert_eq!(stream.finish(true, "exit status: 0"), Ok(()));
}

#[test]
fn commands_that_cannot_be_started_say_why() {
    let failure = not_started("no such file".to_string());
    assert_eq!(failure.message, "starting command");
    assert_eq!(failure.text(), "starting command: no such file");
}
