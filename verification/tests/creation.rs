use rumpelpod::cleanup::cleanup_interval_millis;
use rumpelpod::cleanup::looked_up;
use rumpelpod::cleanup::pass_failed_text;
use rumpelpod::cleanup::pass_step;
use rumpelpod::cleanup::Cleanup;
use rumpelpod::cleanup::CleanupAction;
use rumpelpod::cleanup::CleanupEvent;
use rumpelpod::cleanup::CleanupStep;
use rumpelpod::cleanup::Found;
use rumpelpod::cleanup::PassEvent;
use rumpelpod::cleanup::PassStep;
use rumpelpod::config::ContainerEngine;
use rumpelpod::config::Host;
use rumpelpod::creation::confirmation;
use rumpelpod::creation::directory;
use rumpelpod::creation::id;
use rumpelpod::creation::id_of;
use rumpelpod::creation::is_finalized_name;
use rumpelpod::creation::CreateIntent;
use rumpelpod::creation::PendingCreate;
use rumpelpod::creation::PersistStep;

const ABC: &str = "ba7816bf8f01cfea414140de5dae2223";

#[test]
fn identity_is_half_of_the_hash() {
    assert_eq!(id("abc"), ABC);
    assert_eq!(id(""), "e3b0c44298fc1c149afbf4c8996fb924");
    assert!(!id("abc").contains("abc"));
}

#[test]
fn only_identities_are_finalized_names() {
    assert!(is_finalized_name(ABC));
    assert!(is_finalized_name(&id("any token")));
    assert!(is_finalized_name(&"F".repeat(32)));
    assert!(!is_finalized_name(".tmpAbc123"));
    assert!(!is_finalized_name(&ABC[1..]));
    assert!(!is_finalized_name(&format!("{ABC}0")));
    assert!(!is_finalized_name(&"g".repeat(32)));
    assert!(!is_finalized_name(&"é".repeat(16)));
}

#[test]
fn records_lie_beside_the_database() {
    assert_eq!(
        directory(Ok("/home/u/.local/state/rumpelpod/db.sqlite".to_string())),
        Ok("/home/u/.local/state/rumpelpod/pending-creations".to_string())
    );
    assert_eq!(directory(Err("no home".to_string())), Err("no home".to_string()));
}

fn ssh_host() -> Host {
    Host::Ssh { ssh_destination: "me@box".to_string(), engine: ContainerEngine::Podman }
}

#[test]
fn intent_names_the_record_by_its_creation() {
    let (intent, record) = CreateIntent::new("/state/pending-creations", "/repo", "pod", &ssh_host(), "abc");
    assert_eq!(intent.record_directory(), "/state/pending-creations");
    assert_eq!(intent.record_path(), format!("/state/pending-creations/{ABC}"));
    assert_eq!(record.repo_path, "/repo");
    assert_eq!(record.pod_name, "pod");
    assert_eq!(record.creation, ABC);
    assert!(matches!(record.host, Host::Ssh { ref ssh_destination, engine: ContainerEngine::Podman } if ssh_destination == "me@box"));
    assert_eq!(intent.confirmed(), format!("/state/pending-creations/{ABC}"));
}

#[test]
fn records_are_durable_before_they_are_named() {
    let mut steps = vec![PersistStep::CreateDirectory];
    while let Some(next) = steps[steps.len() - 1].ended(Ok(())).unwrap() {
        steps.push(next);
    }
    assert_eq!(
        steps,
        [
            PersistStep::CreateDirectory,
            PersistStep::CreateTemporary,
            PersistStep::WriteRecord,
            PersistStep::SyncFile,
            PersistStep::Rename,
            PersistStep::SyncDirectory,
        ]
    );
}

#[test]
fn persist_failures_say_what_failed() {
    let fails = |step: PersistStep| step.ended(Err("disk full".to_string())).unwrap_err().text();
    assert_eq!(fails(PersistStep::CreateDirectory), "creating pending creation directory: disk full");
    assert_eq!(fails(PersistStep::CreateTemporary), "disk full");
    assert_eq!(fails(PersistStep::WriteRecord), "disk full");
    assert_eq!(fails(PersistStep::SyncFile), "disk full");
    assert_eq!(fails(PersistStep::Rename), "persisting pending creation: disk full");
    assert_eq!(fails(PersistStep::SyncDirectory), "disk full");
}

fn record() -> PendingCreate {
    PendingCreate {
        repo_path: "/repo".to_string(),
        pod_name: "pod".to_string(),
        host: ssh_host(),
        creation: ABC.to_string(),
    }
}

fn perform(step: CleanupStep) -> (Cleanup, CleanupAction) {
    match step {
        CleanupStep::Perform { next, action } => (next, action),
        other => panic!("{other:?}"),
    }
}

/// Walks an entry up to the lookup of its pod.
fn looking_up() -> Cleanup {
    let entry = Cleanup::enter(ABC).unwrap();
    let (entry, action) = perform(entry.step(CleanupEvent::Read(Found::Present(vec![1, 2]))));
    assert!(matches!(action, CleanupAction::Parse(ref bytes) if bytes == &[1, 2]));
    let (entry, action) = perform(entry.step(CleanupEvent::Parsed(Ok(record()))));
    assert!(matches!(action, CleanupAction::TryLease { ref repo_path, ref pod_name } if repo_path == "/repo" && pod_name == "pod"));
    let (entry, action) = perform(entry.step(CleanupEvent::Leased(true)));
    assert!(matches!(action, CleanupAction::LookUpPod { ref repo_path, ref pod_name } if repo_path == "/repo" && pod_name == "pod"));
    entry
}

#[test]
fn unwanted_creations_are_deleted() {
    for token in [None, Some("another token".to_string())] {
        let (entry, action) = perform(looking_up().step(CleanupEvent::Pod(Ok(token))));
        match action {
            CleanupAction::DeleteCreation { host, creation } => {
                assert!(matches!(host, Host::Ssh { .. }));
                assert_eq!(creation, ABC);
            }
            other => panic!("{other:?}"),
        }
        assert!(matches!(
            entry.step(CleanupEvent::Deleted(Ok(()))),
            CleanupStep::Leave { log: None }
        ));
    }
}

#[test]
fn wanted_creations_are_kept() {
    assert!(matches!(
        looking_up().step(CleanupEvent::Pod(Ok(Some("abc".to_string())))),
        CleanupStep::Leave { log: None }
    ));
}

#[test]
fn failed_deletions_are_logged_and_left() {
    let (entry, _) = perform(looking_up().step(CleanupEvent::Pod(Ok(None))));
    match entry.step(CleanupEvent::Deleted(Err("timed out".to_string()))) {
        CleanupStep::Leave { log } => {
            assert_eq!(log, Some(format!("cleaning up creation {ABC}: timed out")));
        }
        other => panic!("{other:?}"),
    }
}

#[test]
fn entries_that_go_away_or_are_busy_are_left() {
    assert!(Cleanup::enter(".tmpX").is_none());
    let entry = Cleanup::enter(ABC).unwrap();
    assert!(matches!(
        entry.step(CleanupEvent::Read(Found::Missing)),
        CleanupStep::Leave { log: None }
    ));
    let entry = Cleanup::enter(ABC).unwrap();
    let (entry, _) = perform(entry.step(CleanupEvent::Read(Found::Present(Vec::new()))));
    let (entry, _) = perform(entry.step(CleanupEvent::Parsed(Ok(record()))));
    assert!(matches!(
        entry.step(CleanupEvent::Leased(false)),
        CleanupStep::Leave { log: None }
    ));
}

#[test]
fn unreadable_entries_end_the_pass() {
    let entry = Cleanup::enter(ABC).unwrap();
    assert!(matches!(
        entry.step(CleanupEvent::Read(Found::Failed("denied".to_string()))),
        CleanupStep::Abort(ref cause) if cause == "denied"
    ));
    let entry = Cleanup::enter(ABC).unwrap();
    let (entry, _) = perform(entry.step(CleanupEvent::Read(Found::Present(Vec::new()))));
    assert!(matches!(
        entry.step(CleanupEvent::Parsed(Err("eof".to_string()))),
        CleanupStep::Abort(ref cause) if cause == "eof"
    ));
    assert!(matches!(
        looking_up().step(CleanupEvent::Pod(Err("locked".to_string()))),
        CleanupStep::Abort(ref cause) if cause == "locked"
    ));
    assert_eq!(pass_failed_text("denied"), "cleaning up unconfirmed creations: denied");
}

#[test]
fn answers_out_of_turn_are_unexpected() {
    let entry = Cleanup::enter(ABC).unwrap();
    assert!(matches!(
        entry.step(CleanupEvent::Leased(true)),
        CleanupStep::Unexpected(Cleanup::Reading { .. })
    ));
}

#[test]
fn missing_files_are_no_failure() {
    assert_eq!(Found::Present(3).or_nothing(), Ok(Some(3)));
    assert_eq!(Found::<u8>::Missing.or_nothing(), Ok(None));
    assert_eq!(Found::<u8>::Failed("x".to_string()).or_nothing(), Err("x".to_string()));
}

#[test]
fn passes_are_frequent_in_tests_only() {
    assert_eq!(cleanup_interval_millis(true), 250);
    assert_eq!(cleanup_interval_millis(false), 30_000);
}

#[test]
fn identity_is_the_hash_in_lower_case() {
    assert_eq!(id_of(&[0xab; 16]), "ab".repeat(16));
    assert_eq!(id_of(&[0x0f; 32]), "0f".repeat(16));
}

#[test]
fn pods_are_told_by_the_identity_of_their_creation() {
    assert!(matches!(
        looked_up("n".to_string(), record(), Some(ABC.to_string())),
        CleanupStep::Leave { log: None }
    ));
    for other in [None, Some("0".repeat(32))] {
        let (next, action) = perform(looked_up("n".to_string(), record(), other));
        assert!(matches!(next, Cleanup::Deleting { ref name } if name == "n"));
        assert!(matches!(
            action,
            CleanupAction::DeleteCreation { ref creation, .. } if creation == ABC
        ));
    }
}

#[test]
fn a_failed_step_is_the_last() {
    let mut tried = Vec::new();
    let mut step = Some(PersistStep::CreateDirectory);
    while let Some(current) = step {
        tried.push(current);
        let outcome = if current == PersistStep::SyncFile {
            Err("disk full".to_string())
        } else {
            Ok(())
        };
        step = current.ended(outcome).unwrap_or(None);
    }
    assert!(!tried.contains(&PersistStep::Rename));
    assert_eq!(tried.len(), 4);
}

#[test]
fn confirmations_need_their_record() {
    assert!(confirmation(Ok(())).is_ok());
    let failure = confirmation(Err("No such file or directory".to_string())).unwrap_err();
    assert_eq!(failure.message, "confirming backend creation");
    assert_eq!(failure.cause.as_deref(), Some("No such file or directory"));
}

#[test]
fn hosts_keep_what_only_their_backend_reads() {
    let host = Host::Kubernetes { settings: "{\"context\":\"dev\"}".to_string() };
    let (_, record) = CreateIntent::new("/d", "/repo", "pod", &host, "abc");
    assert!(matches!(
        record.host,
        Host::Kubernetes { ref settings } if settings == "{\"context\":\"dev\"}"
    ));
    let local = Host::Localhost { settings: "x".to_string() };
    assert!(matches!(local.clone(), Host::Localhost { ref settings } if settings == "x"));
}

/// Passes over `entries`, where each record ends as it says: what was tried, what
/// was logged, and what the pass came to.
fn pass(
    entries: &[(&str, Result<Option<&str>, &str>)],
) -> (Vec<String>, Vec<String>, Result<(), String>) {
    let mut tried = Vec::new();
    let mut logged = Vec::new();
    let mut left = entries.iter();
    let mut current = None;
    let mut step = pass_step(PassEvent::Opened(Found::Present(())));
    loop {
        let event = match step {
            PassStep::NextEntry { line } => {
                logged.extend(line);
                current = left.next();
                match current {
                    Some((name, _)) => PassEvent::Entry(Ok(name.to_string())),
                    None => PassEvent::NoMoreEntries,
                }
            }
            PassStep::Clean(Cleanup::Reading { name }) => {
                tried.push(name);
                match current.unwrap().1 {
                    Ok(line) => PassEvent::Left(line.map(String::from)),
                    Err(cause) => PassEvent::Aborted(cause.to_string()),
                }
            }
            PassStep::Clean(other) => panic!("{other:?}"),
            PassStep::Finished(result) => return (tried, logged, result),
        };
        step = pass_step(event);
    }
}

#[test]
fn every_record_is_tried_though_one_cannot_be_deleted() {
    let first = "0".repeat(32);
    let second = "1".repeat(32);
    assert_eq!(
        pass(&[
            (".tmpA", Err("never looked at")),
            (&first, Ok(Some("timed out"))),
            ("notes.txt", Ok(None)),
            (&second, Ok(None)),
        ]),
        (vec![first, second], vec!["timed out".to_string()], Ok(()))
    );
    assert_eq!(pass(&[]), (Vec::new(), Vec::new(), Ok(())));
}

#[test]
fn an_abort_ends_the_pass() {
    let first = "0".repeat(32);
    let second = "1".repeat(32);
    assert_eq!(
        pass(&[(&first, Err("denied")), (&second, Ok(None))]),
        (vec![first.clone()], Vec::new(), Err("denied".to_string()))
    );
    assert!(matches!(
        pass_step(PassEvent::Entry(Err("eio".to_string()))),
        PassStep::Finished(Err(ref cause)) if cause == "eio"
    ));
}

#[test]
fn a_directory_that_is_not_there_holds_no_records() {
    assert!(matches!(
        pass_step(PassEvent::Opened(Found::Missing)),
        PassStep::Finished(Ok(()))
    ));
    assert!(matches!(
        pass_step(PassEvent::Opened(Found::Failed("denied".to_string()))),
        PassStep::Finished(Err(ref cause)) if cause == "denied"
    ));
}

#[test]
fn each_action_brings_what_is_waited_for() {
    let entry = || Cleanup::enter(ABC).unwrap();
    let (parsing, action) = perform(entry().step(CleanupEvent::Read(Found::Present(Vec::new()))));
    assert!(matches!(action, CleanupAction::Parse(_)));
    assert!(!matches!(
        parsing.step(CleanupEvent::Parsed(Err("no".to_string()))),
        CleanupStep::Unexpected(_)
    ));
    assert!(matches!(
        looking_up().step(CleanupEvent::Deleted(Ok(()))),
        CleanupStep::Unexpected(Cleanup::LookingUp { .. })
    ));
    assert!(matches!(
        entry().step(CleanupEvent::Pod(Ok(None))),
        CleanupStep::Unexpected(Cleanup::Reading { .. })
    ));
}

#[test]
fn records_are_kept_after_a_deletion() {
    let mut asked = Vec::new();
    let answers = [
        CleanupEvent::Read(Found::Present(vec![7])),
        CleanupEvent::Parsed(Ok(record())),
        CleanupEvent::Leased(true),
        CleanupEvent::Pod(Ok(None)),
        CleanupEvent::Deleted(Ok(())),
    ];
    let mut entry = Cleanup::enter(ABC);
    for answer in answers {
        match entry.take().expect("an entry that is not done").step(answer) {
            CleanupStep::Perform { next, action } => {
                asked.push(match action {
                    CleanupAction::Parse(_) => "parse",
                    CleanupAction::TryLease { .. } => "lease",
                    CleanupAction::LookUpPod { .. } => "look up",
                    CleanupAction::DeleteCreation { .. } => "delete at the backend",
                });
                entry = Some(next);
            }
            CleanupStep::Leave { log } => assert_eq!(log, None),
            other => panic!("{other:?}"),
        }
    }
    assert!(entry.is_none());
    assert_eq!(asked, ["parse", "lease", "look up", "delete at the backend"]);
}
