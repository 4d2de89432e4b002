use rumpelpod::command::CommandLine;
use rumpelpod::command::Finished;
use rumpelpod::failure::Failure;
use rumpelpod::lfs::git_lfs_available;
use rumpelpod::lfs::lfs_answers;
use rumpelpod::lfs::lfs_oids_for_ref_update;
use rumpelpod::lfs::local_branch_heads;
use rumpelpod::lfs::parse_branches;
use rumpelpod::lfs::rev_parse_optional;
use rumpelpod::lfs::upload_lfs_objects_for_ref_update;
use rumpelpod::lfs::upload_lfs_objects_for_rumpelpod_push;
use rumpelpod::lfs::GitLfsFile;
use rumpelpod::lfs::GitLfsLsFiles;
use rumpelpod::lfs::LfsEvent;
use rumpelpod::lfs::LfsStep;
use rumpelpod::lfs::LfsUpload;
use rumpelpod::lfs::PushFault;
use rumpelpod::lfs::ZERO_OID;

fn ended(code: i32, stdout: &[u8], stderr: &[u8]) -> Finished {
    Finished {
        code: Some(code),
        status: format!("exit status: {code}"),
        stdout: stdout.to_vec(),
        stderr: stderr.to_vec(),
    }
}

fn ran(code: i32, stdout: &str, stderr: &str) -> LfsEvent {
    LfsEvent::Ran(ended(code, stdout.as_bytes(), stderr.as_bytes()))
}

fn listing(oids: &[&str]) -> LfsEvent {
    LfsEvent::Parsed(Ok(files(oids)))
}

fn files(oids: &[&str]) -> GitLfsLsFiles {
    GitLfsLsFiles {
        files: Some(oids.iter().map(|oid| GitLfsFile { oid: oid.to_string() }).collect()),
    }
}

/// What an upload did, in words.
fn shown(command: &CommandLine) -> String {
    format!("{} {}", command.program, command.args.join(" "))
}

/// Answers one question after the other: what was asked, and how it ended.
fn drive(start: LfsStep, answers: Vec<LfsEvent>) -> (Vec<String>, Result<(), String>) {
    let mut asked = Vec::new();
    let mut step = start;
    let mut answers = answers.into_iter();
    loop {
        let next: LfsUpload = match step {
            LfsStep::Run { next, command } => {
                asked.push(shown(&command));
                next
            }
            LfsStep::Push { next, command, input } => {
                asked.push(format!("{} < {input}", shown(&command)));
                next
            }
            LfsStep::Parse { next, bytes } => {
                asked.push(format!("parse {}", String::from_utf8(bytes).unwrap()));
                next
            }
            LfsStep::Done => {
                assert!(answers.next().is_none(), "answers are left");
                return (asked, Ok(()));
            }
            LfsStep::Failed(failure) => {
                assert!(answers.next().is_none(), "answers are left");
                return (asked, Err(failure.text()));
            }
            LfsStep::Unexpected(stage) => panic!("unexpected answer at {stage:?}"),
        };
        step = next.step(answers.next().expect("an answer"));
    }
}

const LIST: &str = "git lfs ls-files --json -l";
const VERSION: &str = "git lfs version";
const BRANCHES: &str =
    "git for-each-ref --format=%(refname:lstrip=2)%09%(objectname)%09%(upstream) refs/heads/";

fn update(old: Option<&str>, new: &str, answers: Vec<LfsEvent>) -> (Vec<String>, Result<(), String>) {
    drive(upload_lfs_objects_for_ref_update("origin", old, new), answers)
}

fn push(answers: Vec<LfsEvent>) -> (Vec<String>, Result<(), String>) {
    drive(upload_lfs_objects_for_rumpelpod_push("dev"), answers)
}

#[test]
fn deleted_refs_run_nothing() {
    assert_eq!(ZERO_OID.len(), 40);
    assert_eq!(update(Some("aa"), ZERO_OID, Vec::new()), (Vec::new(), Ok(())));
}

#[test]
fn without_lfs_nothing_is_uploaded() {
    let missing = || ran(1, "", "git: 'lfs' is not a git command. See 'git --help'.");
    assert_eq!(update(None, "bb", vec![missing()]), (vec![VERSION.to_string()], Ok(())));
    assert_eq!(push(vec![missing()]), (vec![VERSION.to_string()], Ok(())));
}

#[test]
fn update_uploads_each_object_once_in_order() {
    let (asked, result) = update(
        Some("aa"),
        "bb",
        vec![ran(0, "v3", ""), ran(0, "[]", ""), listing(&["c2", "a1", "c2", "b0"]), ran(0, "", "")],
    );
    assert_eq!(result, Ok(()));
    assert_eq!(
        asked,
        [
            VERSION.to_string(),
            format!("{LIST} aa bb"),
            "parse []".to_string(),
            "git lfs push --object-id origin --stdin < a1\nb0\nc2\n".to_string(),
        ]
    );
}

#[test]
fn update_without_a_base_lists_everything() {
    for old in [None, Some(ZERO_OID), Some("bb")] {
        let (asked, result) =
            update(old, "bb", vec![ran(0, "", ""), ran(0, "{}", ""), listing(&[])]);
        assert_eq!(result, Ok(()));
        assert_eq!(asked[1], format!("{LIST} bb"));
        assert_eq!(asked.len(), 3, "nothing is pushed");
    }
}

#[test]
fn objects_are_distinct_and_in_order() {
    assert_eq!(lfs_oids_for_ref_update(files(&["b", "a", "b", "a", "c"])), ["a", "b", "c"]);
    assert!(lfs_oids_for_ref_update(GitLfsLsFiles { files: None }).is_empty());
}

#[test]
fn availability_is_judged_by_the_answer() {
    assert_eq!(git_lfs_available(&ended(0, b"", b"")), Ok(true));
    assert_eq!(git_lfs_available(&ended(1, b"", b"git: 'lfs' is not a git command.")), Ok(false));
    assert_eq!(
        git_lfs_available(&ended(2, b"", b"broken\xff")),
        Err(Failure::plain("git lfs version failed: broken\u{fffd}".to_string()))
    );
}

#[test]
fn branches_are_read_line_by_line() {
    let heads = local_branch_heads(ended(
        0,
        b"main\taa\trefs/remotes/origin/main\nwork\tbb\t\nodd\tcc\tx\ty\n",
        b"",
    ))
    .unwrap();
    let shown: Vec<(String, String, Option<String>)> =
        heads.into_iter().map(|head| (head.branch, head.head, head.upstream)).collect();
    assert_eq!(
        shown,
        [
            ("main".to_string(), "aa".to_string(), Some("refs/remotes/origin/main".to_string())),
            ("work".to_string(), "bb".to_string(), None),
            ("odd".to_string(), "cc".to_string(), Some("x\ty".to_string())),
        ]
    );
    assert!(local_branch_heads(ended(0, b"", b"")).unwrap().is_empty());
}

#[test]
fn broken_branch_listings_are_refused() {
    let fails = |finished| local_branch_heads(finished).map(|_| ()).unwrap_err().text();
    assert_eq!(fails(ended(128, b"", b"not a repo")), "git for-each-ref failed: not a repo");
    assert_eq!(
        fails(ended(0, b"main\taa\t\nwork\tbb\n", b"")),
        "git for-each-ref returned malformed line: work\tbb"
    );
    assert_eq!(
        fails(ended(0, b"\n", b"")),
        "git for-each-ref returned malformed line: "
    );
    assert_eq!(
        fails(ended(0, b"main\xff", b"")),
        "branch listing was not UTF-8: invalid utf-8 sequence of 1 bytes from index 4"
    );
}

#[test]
fn refs_may_be_missing() {
    assert_eq!(rev_parse_optional("r", ended(0, b"aa\n", b"")), Ok(Some("aa".to_string())));
    assert_eq!(rev_parse_optional("r", ended(1, b"", b"")), Ok(None));
    assert_eq!(
        rev_parse_optional("r", ended(128, b"", b"bad")),
        Err(Failure::plain("git rev-parse r failed: bad".to_string()))
    );
    let killed = Finished { code: None, ..ended(0, b"", b"") };
    assert_eq!(rev_parse_optional("r", killed), Err(Failure::plain("git rev-parse r failed: ".to_string())));
    assert_eq!(
        rev_parse_optional("r", ended(0, b"\xff", b"")),
        Err(Failure::new(
            "ref sha was not UTF-8",
            "invalid utf-8 sequence of 1 bytes from index 0".to_string()
        ))
    );
}

#[test]
fn push_uploads_branches_that_are_not_there() {
    let (asked, result) = push(vec![
        ran(0, "", ""),
        ran(0, "done\taa\t\nnew\tbb\trefs/remotes/host/main\nfresh\tcc\t\n", ""),
        ran(0, "aa\n", ""),
        ran(1, "", ""),
        ran(0, "b0\n", ""),
        ran(0, "{}", ""),
        listing(&["o1"]),
        ran(0, "", ""),
        ran(1, "", ""),
        ran(1, "", ""),
        ran(0, "{}", ""),
        listing(&[]),
    ]);
    assert_eq!(result, Ok(()));
    assert_eq!(
        asked,
        [
            VERSION.to_string(),
            BRANCHES.to_string(),
            "git rev-parse --verify --quiet refs/remotes/rumpelpod/done@dev".to_string(),
            "git rev-parse --verify --quiet refs/remotes/rumpelpod/new@dev".to_string(),
            "git rev-parse --verify --quiet refs/remotes/host/main".to_string(),
            format!("{LIST} b0 bb"),
            "parse {}".to_string(),
            "git lfs push --object-id rumpelpod --stdin < o1\n".to_string(),
            "git rev-parse --verify --quiet refs/remotes/rumpelpod/fresh@dev".to_string(),
            "git rev-parse --verify --quiet refs/remotes/host/HEAD".to_string(),
            format!("{LIST} cc"),
            "parse {}".to_string(),
        ]
    );
}

#[test]
fn a_branch_that_starts_where_it_is_needs_nothing() {
    let (asked, result) = push(vec![
        ran(0, "", ""),
        ran(0, "same\taa\t\n", ""),
        ran(1, "", ""),
        ran(0, "aa\n", ""),
    ]);
    assert_eq!(result, Ok(()));
    assert_eq!(asked.len(), 4);
}

#[test]
fn failures_end_an_upload_with_their_cause() {
    let not_run = || LfsEvent::NotRun("no git".to_string());
    let available = || ran(0, "", "");
    let one = || ran(0, "main\taa\t\n", "");
    let message = |outcome: (Vec<String>, Result<(), String>)| outcome.1.unwrap_err();

    assert_eq!(message(update(None, "b", vec![not_run()])), "checking git lfs availability: no git");
    assert_eq!(message(push(vec![not_run()])), "checking git lfs availability: no git");
    assert_eq!(
        message(push(vec![ran(2, "", "odd")])),
        "git lfs version failed: odd"
    );
    assert_eq!(message(push(vec![available(), not_run()])), "listing local branches: no git");
    assert_eq!(
        message(push(vec![available(), one(), not_run()])),
        "resolving ref refs/remotes/rumpelpod/main@dev: no git"
    );
    assert_eq!(
        message(push(vec![available(), one(), ran(1, "", ""), not_run()])),
        "resolving ref refs/remotes/host/HEAD: no git"
    );
    assert_eq!(
        message(push(vec![available(), one(), ran(1, "", ""), ran(128, "", "bad")])),
        "git rev-parse refs/remotes/host/HEAD failed: bad"
    );
    assert_eq!(
        message(update(None, "b", vec![available(), not_run()])),
        "listing changed git lfs objects: no git"
    );
    assert_eq!(
        message(update(None, "b", vec![available(), ran(1, "", "bad")])),
        "git lfs ls-files failed: bad"
    );
    assert_eq!(
        message(update(
            None,
            "b",
            vec![available(), ran(0, "", ""), LfsEvent::Parsed(Err("eof".to_string()))]
        )),
        "parsing git lfs ls-files output: eof"
    );
}

#[test]
fn failed_pushes_say_how() {
    let pushed = |answer: LfsEvent| {
        update(None, "b", vec![ran(0, "", ""), ran(0, "", ""), listing(&["o"]), answer])
            .1
            .unwrap_err()
    };
    assert_eq!(pushed(ran(1, "out ", "err")), "git lfs push --object-id failed: out err");
    assert_eq!(
        pushed(LfsEvent::NotPushed(PushFault::NotSpawned("no git".to_string()))),
        "spawning git lfs push: no git"
    );
    assert_eq!(
        pushed(LfsEvent::NotPushed(PushFault::NoInput)),
        "git lfs push stdin was not captured"
    );
    assert_eq!(
        pushed(LfsEvent::NotPushed(PushFault::NotWritten("EPIPE".to_string()))),
        "writing git lfs object id: EPIPE"
    );
    assert_eq!(
        pushed(LfsEvent::NotPushed(PushFault::NotAwaited("ECHILD".to_string()))),
        "waiting for git lfs push: ECHILD"
    );
}

#[test]
fn answers_to_other_questions_are_unexpected() {
    let start = upload_lfs_objects_for_rumpelpod_push("dev");
    let next = match start {
        LfsStep::Run { next, .. } => next,
        other => panic!("{other:?}"),
    };
    assert!(matches!(
        next.step(listing(&[])),
        LfsStep::Unexpected(LfsUpload::CheckingForPush { .. })
    ));
}

#[test]
fn texts_of_answers_are_judged() {
    assert_eq!(lfs_answers(true, "is not a git command"), Ok(true));
    assert_eq!(lfs_answers(false, "it is not a git command, it says"), Ok(false));
    assert_eq!(lfs_answers(false, ""), Err(Failure::plain("git lfs version failed: ".to_string())));
}

#[test]
fn listings_are_parsed_as_text() {
    let heads = parse_branches("a\tb\tc\r\nd\te\t").unwrap();
    assert_eq!(heads.len(), 2);
    assert_eq!(heads[0].upstream.as_deref(), Some("c"));
    assert_eq!(heads[1].branch, "d");
    assert_eq!(heads[1].upstream, None);
    assert!(parse_branches("a b c").is_err());
}

#[test]
fn caught_up_branches_are_only_resolved() {
    let (asked, result) = push(vec![
        ran(0, "", ""),
        ran(0, "one\taa\t\ntwo\tbb\trefs/remotes/host/main\n", ""),
        ran(0, "aa\n", ""),
        ran(1, "", ""),
        ran(0, "bb\n", ""),
    ]);
    assert_eq!(result, Ok(()));
    assert_eq!(asked.len(), 5);
    for command in &asked[2..] {
        assert!(command.starts_with("git rev-parse "), "{command}");
    }
}

#[test]
fn failures_keep_their_cause_apart() {
    let next = match upload_lfs_objects_for_rumpelpod_push("dev") {
        LfsStep::Run { next, .. } => next,
        other => panic!("{other:?}"),
    };
    match next.step(LfsEvent::NotRun("no git".to_string())) {
        LfsStep::Failed(failure) => {
            assert_eq!(failure.message, "checking git lfs availability");
            assert_eq!(failure.cause.as_deref(), Some("no git"));
        }
        other => panic!("{other:?}"),
    }
}

#[test]
fn each_stage_expects_the_kinds_that_were_asked_for() {
    let kinds: [fn() -> LfsEvent; 5] = [
        || ran(0, "", ""),
        || LfsEvent::NotRun("no".to_string()),
        || LfsEvent::NotPushed(PushFault::NoInput),
        || listing(&["o"]),
        || LfsEvent::Parsed(Err("no".to_string())),
    ];
    let stages: [(fn() -> LfsUpload, [bool; 5]); 3] = [
        (
            || LfsUpload::ListingObjects { remote: "r".to_string(), left: None },
            [true, true, false, false, false],
        ),
        (
            || LfsUpload::ParsingObjects { remote: "r".to_string(), left: None },
            [false, false, false, true, true],
        ),
        (|| LfsUpload::Pushing { left: None }, [true, false, true, false, false]),
    ];
    for (stage, expected) in stages {
        for (kind, expected) in kinds.iter().zip(expected) {
            let step = stage().step(kind());
            assert_eq!(!matches!(step, LfsStep::Unexpected(_)), expected, "{step:?}");
        }
    }
}
