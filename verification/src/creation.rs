//! Pods whose creation was requested and not confirmed.
//!
//! Before a backend is asked to create a pod, a record of the request is made
//! durable under the identity of the creation. A request that was cancelled, or
//! whose daemon died, may still be acted on later; from the records left behind
//! the daemon finds the creations that no pod wants any more and deletes them.
use vstd::prelude::*;
use vstd::string::*;
use vstd::utf8::encode_utf8;

use crate::config::Host;
use crate::config::HostView;
use crate::failure::because;
use crate::failure::plainly;
use crate::failure::Failure;
use crate::failure::FailureView;
use crate::outside::hex_encode;
use crate::outside::hex_text;
use crate::outside::is_file_name;
use crate::outside::is_plain_directory;
use crate::outside::path_with_file_name;
use crate::outside::sha256;
use crate::outside::sha256_digest;
use crate::outside::with_file_name;
use crate::paths::join;
use crate::paths::law_paths_are_made_of_directory_and_name;
use crate::paths::path_in;
use crate::text::chars_of;

verus! {

/// The name of the directory that holds the records.
pub const DIRECTORY_NAME: &'static str = "pending-creations";

/// How long a deletion may take before it is given up, in seconds.
pub const DELETE_TIMEOUT_SECS: u64 = 15;

/// Whether a token can be hashed: its length in bits fits a 64-bit counter.
pub open spec fn is_hashable(token: Seq<char>) -> bool {
    encode_utf8(token).len() < 0x2000_0000_0000_0000
}

/// The identity of the creation of the pod with `token`: half of the hash of
/// the token, in hexadecimal. It says nothing of the token, so it may stand in
/// labels that others can read.
pub open spec fn creation_id(token: Seq<char>) -> Seq<char> {
    hex_text(sha256(encode_utf8(token))).take(32)
}

/// The identity that the hash `digest` of a token stands for.
pub fn id_of(digest: &[u8]) -> (r: String)
    requires
        16 <= digest@.len() <= isize::MAX / 2,
    ensures
        r@ == hex_text(digest@).take(32),
        is_finalized(r@),
{
    let text = hex_encode(digest);
    let r = text.as_str().substring_char(0, 32).to_owned();
    assert(hex_text(digest@).subrange(0, 32) == hex_text(digest@).take(32));
    proof {
        lemma_hex_is_finalized(digest@);
    }
    r
}

/// The identity of the creation of the pod with `token`.
pub fn id(token: &str) -> (r: String)
    requires
        is_hashable(token@),
    ensures
        r@ == creation_id(token@),
        is_finalized(r@),
{
    id_of(sha256_digest(token.as_bytes()).as_slice())
}

proof fn lemma_hex_is_finalized(bytes: Seq<u8>)
    requires
        bytes.len() >= 16,
    ensures
        is_finalized(hex_text(bytes).take(32)),
{
    assert forall|i: int| 0 <= i < 32 implies is_hex_digit(#[trigger] hex_text(bytes).take(32)[i]) by {
        assert(hex_text(bytes).take(32)[i] == hex_text(bytes)[i]);
    }
}

/// Whether `c` is a hexadecimal digit, of either case.
pub open spec fn is_hex_digit(c: char) -> bool {
    ||| '0' <= c <= '9'
    ||| 'a' <= c <= 'f'
    ||| 'A' <= c <= 'F'
}

/// Whether `name` is the name of a finished record: 32 hexadecimal digits. A
/// record that is still being written has another name.
pub open spec fn is_finalized(name: Seq<char>) -> bool {
    &&& name.len() == 32
    &&& forall|i: int| 0 <= i < 32 ==> is_hex_digit(#[trigger] name[i])
}

/// Whether `name` is the name of a finished record.
pub fn is_finalized_name(name: &str) -> (r: bool)
    ensures
        r == is_finalized(name@),
{
    let chars = chars_of(name);
    if chars.len() != 32 {
        return false;
    }
    let mut i: usize = 0;
    while i < 32
        invariant
            i <= 32,
            chars@ == name@,
            chars@.len() == 32,
            forall|k: int| 0 <= k < i ==> is_hex_digit(#[trigger] name@[k]),
        decreases 32 - i,
    {
        let c = chars[i];
        if !(('0' <= c && c <= '9') || ('a' <= c && c <= 'f') || ('A' <= c && c <= 'F')) {
            assert(!is_hex_digit(name@[i as int]));
            return false;
        }
        i += 1;
    }
    true
}

/// The directory that holds the records, beside the daemon's database. Where
/// the path of the database is not known, neither is the directory.
pub fn directory(db_path: Result<String, String>) -> (r: Result<String, String>)
    ensures
        match db_path {
            Ok(path) => r is Ok && r->Ok_0@ == path_with_file_name(path@, DIRECTORY_NAME@),
            Err(cause) => r == Err::<String, String>(cause),
        },
        forall|parent: Seq<char>, file: Seq<char>|
            db_path is Ok && is_plain_directory(parent) && is_file_name(file)
                && db_path->Ok_0@ == #[trigger] (parent + (seq!['/'] + file)) ==> r->Ok_0@ == parent
                + "/pending-creations"@,
{
    match db_path {
        Ok(path) => {
            let r = with_file_name(path.as_str(), DIRECTORY_NAME);
            proof {
                reveal_strlit("pending-creations");
                reveal_strlit("/pending-creations");
                assert(is_file_name(DIRECTORY_NAME@)) by {
                    assert(!DIRECTORY_NAME@.contains('/'));
                }
                assert(seq!['/'] + DIRECTORY_NAME@ =~= "/pending-creations"@);
            }
            Ok(r)
        },
        Err(cause) => Err(cause),
    }
}

/// The record of a creation that was requested and not confirmed.
#[derive(Debug)]
pub struct PendingCreate {
    pub repo_path: String,
    pub pod_name: String,
    pub host: Host,
    pub creation: String,
}

/// A [`PendingCreate`] with its text as characters.
pub struct PendingView {
    pub repo_path: Seq<char>,
    pub pod_name: Seq<char>,
    pub host: HostView,
    pub creation: Seq<char>,
}

impl View for PendingCreate {
    type V = PendingView;

    open spec fn view(&self) -> PendingView {
        PendingView {
            repo_path: self.repo_path@,
            pod_name: self.pod_name@,
            host: self.host@,
            creation: self.creation@,
        }
    }
}

/// A record that is to be made durable before the backend is asked to create
/// the pod, and removed once the backend has confirmed the creation.
#[derive(Debug)]
pub struct CreateIntent {
    directory: String,
    path: String,
}

/// One step on the way to a durable record.
#[derive(Debug, Clone, Copy, PartialEq, Eq, Structural)]
pub enum PersistStep {
    /// Create the directory and its parents, where they are missing.
    CreateDirectory,
    /// Create a file with a temporary name in the directory.
    CreateTemporary,
    /// Write the whole record to the temporary file.
    WriteRecord,
    /// Make the content of the temporary file durable.
    SyncFile,
    /// Give the file its final name.
    Rename,
    /// Make the name durable.
    SyncDirectory,
}

/// The step behind `step`, if there is one.
pub open spec fn step_behind(step: PersistStep) -> Option<PersistStep> {
    match step {
        PersistStep::CreateDirectory => Some(PersistStep::CreateTemporary),
        PersistStep::CreateTemporary => Some(PersistStep::WriteRecord),
        PersistStep::WriteRecord => Some(PersistStep::SyncFile),
        PersistStep::SyncFile => Some(PersistStep::Rename),
        PersistStep::Rename => Some(PersistStep::SyncDirectory),
        PersistStep::SyncDirectory => None,
    }
}

/// The failure of `step`: the cause, behind what was tried where the cause does
/// not say it.
pub open spec fn persist_failure(step: PersistStep, cause: Seq<char>) -> FailureView {
    match step {
        PersistStep::CreateDirectory => because("creating pending creation directory"@, cause),
        PersistStep::Rename => because("persisting pending creation"@, cause),
        _ => plainly(cause),
    }
}

impl PersistStep {
    /// What follows once this step has ended: the next step, `None` where the
    /// record is durable, or the failure.
    pub fn ended(self, outcome: Result<(), String>) -> (r: Result<Option<PersistStep>, Failure>)
        ensures
            match outcome {
                Ok(_) => r == Ok::<Option<PersistStep>, Failure>(step_behind(self)),
                Err(cause) => r is Err && r->Err_0@ == persist_failure(self, cause@),
            },
    {
        match outcome {
            Ok(_) => Ok(
                match self {
                    PersistStep::CreateDirectory => Some(PersistStep::CreateTemporary),
                    PersistStep::CreateTemporary => Some(PersistStep::WriteRecord),
                    PersistStep::WriteRecord => Some(PersistStep::SyncFile),
                    PersistStep::SyncFile => Some(PersistStep::Rename),
                    PersistStep::Rename => Some(PersistStep::SyncDirectory),
                    PersistStep::SyncDirectory => None,
                },
            ),
            Err(cause) => Err(
                match self {
                    PersistStep::CreateDirectory => Failure::new(
                        "creating pending creation directory",
                        cause,
                    ),
                    PersistStep::Rename => Failure::new("persisting pending creation", cause),
                    _ => Failure::plain(cause),
                },
            ),
        }
    }
}

impl CreateIntent {
    /// The directory that the record goes to.
    pub closed spec fn directory(self) -> Seq<char> {
        self.directory@
    }

    /// The final path of the record.
    pub closed spec fn path(self) -> Seq<char> {
        self.path@
    }

    /// The record for the creation of the pod with `token`, and where in
    /// `directory` it goes. The first step towards it is
    /// [`PersistStep::CreateDirectory`].
    pub fn new(directory: &str, repo_path: &str, pod_name: &str, host: &Host, token: &str) -> (r: (
        CreateIntent,
        PendingCreate,
    ))
        requires
            is_hashable(token@),
        ensures
            r.0.directory() == directory@,
            r.0.path() == path_in(directory@, creation_id(token@)),
            r.1@ == (PendingView {
                repo_path: repo_path@,
                pod_name: pod_name@,
                host: host@,
                creation: creation_id(token@),
            }),
            is_finalized(r.1.creation@),
    {
        let creation = id(token);
        assert(is_hex_digit(creation@[0]));
        let path = join(directory, creation.as_str());
        (
            CreateIntent { directory: directory.to_owned(), path },
            PendingCreate {
                repo_path: repo_path.to_owned(),
                pod_name: pod_name.to_owned(),
                host: host.clone(),
                creation,
            },
        )
    }

    /// The directory that the record goes to.
    pub fn record_directory(&self) -> (r: &str)
        ensures
            r@ == self.directory(),
    {
        self.directory.as_str()
    }

    /// The final path of the record.
    pub fn record_path(&self) -> (r: &str)
        ensures
            r@ == self.path(),
    {
        self.path.as_str()
    }

    /// The record to remove now that the backend has confirmed the creation.
    pub fn confirmed(self) -> (r: String)
        ensures
            r@ == self.path(),
    {
        self.path
    }
}

/// What a confirmation comes to, by how removing [`CreateIntent::confirmed`]
/// ended. That the record is gone already is a failure too.
pub fn confirmation(outcome: Result<(), String>) -> (r: Result<(), Failure>)
    ensures
        match outcome {
            Ok(_) => r is Ok,
            Err(cause) => r is Err && r->Err_0@ == because("confirming backend creation"@, cause@),
        },
{
    match outcome {
        Ok(_) => Ok(()),
        Err(cause) => Err(Failure::new("confirming backend creation", cause)),
    }
}

/// The files of a directory, by their paths, each with its content.
pub type Files = Map<Seq<char>, Seq<u8>>;

/// What `step` makes of the files, when it succeeds: the record is written to
/// `temporary` and renamed to `path`.
pub open spec fn files_after(
    step: PersistStep,
    files: Files,
    temporary: Seq<char>,
    path: Seq<char>,
    record: Seq<u8>,
) -> Files {
    match step {
        PersistStep::CreateTemporary => files.insert(temporary, seq![]),
        PersistStep::WriteRecord => files.insert(temporary, record),
        PersistStep::Rename => files.remove(temporary).insert(path, files[temporary]),
        _ => files,
    }
}

/// What the steps from `step` on make of the files, when each of them succeeds.
pub open spec fn files_from(
    step: PersistStep,
    files: Files,
    temporary: Seq<char>,
    path: Seq<char>,
    record: Seq<u8>,
) -> Files
    decreases steps_left(step),
{
    let after = files_after(step, files, temporary, path, record);
    match step_behind(step) {
        Some(next) => files_from(next, after, temporary, path, record),
        None => after,
    }
}

/// How many steps are left behind `step`.
pub open spec fn steps_left(step: PersistStep) -> nat {
    match step {
        PersistStep::CreateDirectory => 5,
        PersistStep::CreateTemporary => 4,
        PersistStep::WriteRecord => 3,
        PersistStep::SyncFile => 2,
        PersistStep::Rename => 1,
        PersistStep::SyncDirectory => 0,
    }
}

/// How removing the file at `path` ends: with the other files, or with a failure
/// where there is no such file.
pub open spec fn removed(files: Files, path: Seq<char>) -> Result<Files, ()> {
    if files.dom().contains(path) {
        Ok(files.remove(path))
    } else {
        Err(())
    }
}

/// A durable record is the one file that its steps leave behind, with the whole
/// record in it; and confirming the creation undoes them: the files are those
/// from before, with the contents from before. Where the record has been removed
/// in between, there is nothing to remove, and the confirmation fails.
pub proof fn law_confirming_undoes_the_intent(
    intent: CreateIntent,
    files: Files,
    temporary: Seq<char>,
    record: Seq<u8>,
)
    requires
        !files.dom().contains(intent.path()),
        !files.dom().contains(temporary),
        temporary != intent.path(),
    ensures
        ({
            let after = files_from(
                PersistStep::CreateDirectory,
                files,
                temporary,
                intent.path(),
                record,
            );
            &&& after == files.insert(intent.path(), record)
            &&& removed(after, intent.path()) == Ok::<Files, ()>(files)
            &&& removed(after.remove(intent.path()), intent.path()) is Err
        }),
{
    reveal_with_fuel(files_from, 7);
    let after = files_from(
        PersistStep::CreateDirectory,
        files,
        temporary,
        intent.path(),
        record,
    );
    assert(after =~= files.insert(intent.path(), record));
    assert(after.remove(intent.path()) =~= files);
}

/// The steps that are tried from `step` on, when each of them succeeds or fails
/// as `successes` says, in order.
pub open spec fn tried_from(step: PersistStep, successes: Seq<bool>) -> Seq<PersistStep>
    decreases successes.len(),
{
    if successes.len() > 0 && successes[0] && step_behind(step) is Some {
        seq![step] + tried_from(step_behind(step)->0, successes.drop_first())
    } else {
        seq![step]
    }
}

/// A record gets its final name only once its whole content is written and
/// durable: whoever finds a finalized name finds a complete record behind it.
pub proof fn law_records_are_durable_before_they_are_named(successes: Seq<bool>, at: int)
    requires
        0 <= at < tried_from(PersistStep::CreateDirectory, successes).len(),
        tried_from(PersistStep::CreateDirectory, successes)[at] == PersistStep::Rename,
    ensures
        exists|i: int, j: int|
            0 <= i < j < at && j < successes.len() && #[trigger] tried_from(
                PersistStep::CreateDirectory,
                successes,
            )[i] == PersistStep::WriteRecord && #[trigger] tried_from(
                PersistStep::CreateDirectory,
                successes,
            )[j] == PersistStep::SyncFile && successes[i] && successes[j],
{
    let tried = tried_from(PersistStep::CreateDirectory, successes);
    reveal_with_fuel(tried_from, 7);
    let second = successes.drop_first();
    let third = second.drop_first();
    let fourth = third.drop_first();
    assert(successes.len() > 1 ==> second[0] == successes[1]);
    assert(successes.len() > 2 ==> third[0] == successes[2]);
    assert(successes.len() > 3 ==> fourth[0] == successes[3]);
    assert(tried[2] == PersistStep::WriteRecord && tried[3] == PersistStep::SyncFile);
}

/// The name of a finished record is 32 characters long, each of them one of the
/// hexadecimal digits of either case; and every such name is one.
pub proof fn law_finalized_names_are_hexadecimal(name: Seq<char>)
    ensures
        is_finalized(name) <==> name.len() == 32 && forall|i: int|
            0 <= i < 32 ==> "0123456789abcdefABCDEF"@.contains(#[trigger] name[i]),
{
    let digits = "0123456789abcdefABCDEF"@;
    reveal_strlit("0123456789abcdefABCDEF");
    assert forall|c: char| is_hex_digit(c) <==> #[trigger] digits.contains(c) by {
        if is_hex_digit(c) {
            let at = if c <= '9' {
                c as int - '0' as int
            } else if 'a' <= c {
                10 + c as int - 'a' as int
            } else {
                16 + c as int - 'A' as int
            };
            assert(digits[at] == c);
        }
        if digits.contains(c) {
            let at = choose|at: int| 0 <= at < digits.len() && digits[at] == c;
            assert(is_hex_digit(digits[at]));
        }
    }
}

/// An identity spells the first sixteen bytes of the token's hash, two lower case
/// hexadecimal digits for each, the higher first.
pub proof fn law_identities_spell_the_hash(token: Seq<char>, at: int)
    requires
        0 <= at < 16,
    ensures
        sha256(encode_utf8(token)).len() == 32 ==> {
            let byte = sha256(encode_utf8(token))[at] as int;
            let digits = "0123456789abcdef"@;
            &&& creation_id(token).len() == 32
            &&& creation_id(token)[2 * at] == digits[byte / 16]
            &&& creation_id(token)[2 * at + 1] == digits[byte % 16]
        },
{
    reveal_strlit("0123456789abcdef");
    let hash = sha256(encode_utf8(token));
    let text = hex_text(hash);
    if hash.len() == 32 {
        assert(creation_id(token)[2 * at] == text[2 * at]);
        assert(creation_id(token)[2 * at + 1] == text[2 * at + 1]);
    }
}

/// A step that fails keeps the whole cause: as what its failure goes back to where
/// the directory was made or the record got its name, and as the failure itself
/// else.
pub proof fn law_failed_steps_keep_their_cause(step: PersistStep, cause: Seq<char>)
    ensures
        step == PersistStep::CreateDirectory || step == PersistStep::Rename ==> persist_failure(
            step,
            cause,
        ).cause == Some(cause),
        step == PersistStep::CreateDirectory ==> persist_failure(step, cause).message
            == "creating pending creation directory"@,
        step == PersistStep::Rename ==> persist_failure(step, cause).message
            == "persisting pending creation"@,
        step != PersistStep::CreateDirectory && step != PersistStep::Rename ==> persist_failure(
            step,
            cause,
        ) == (FailureView { message: cause, cause: None }),
{
}

/// Records are viewed with all that they hold.
pub proof fn law_records_are_viewed_whole(record: PendingCreate)
    ensures
        record@.repo_path == record.repo_path@,
        record@.pod_name == record.pod_name@,
        record@.host == record.host@,
        record@.creation == record.creation@,
{
}

/// A record whose steps all succeed takes each of them once, in this order, and one
/// that fails at a step has taken those before it.
pub proof fn law_records_take_every_step(successes: Seq<bool>)
    ensures
        tried_from(PersistStep::CreateDirectory, successes).is_prefix_of(
            seq![
                PersistStep::CreateDirectory,
                PersistStep::CreateTemporary,
                PersistStep::WriteRecord,
                PersistStep::SyncFile,
                PersistStep::Rename,
                PersistStep::SyncDirectory,
            ],
        ),
        successes.len() >= 5 && (forall|i: int| 0 <= i < 5 ==> #[trigger] successes[i])
            ==> tried_from(PersistStep::CreateDirectory, successes).len() == 6,
{
    reveal_with_fuel(tried_from, 7);
    let second = successes.drop_first();
    let third = second.drop_first();
    let fourth = third.drop_first();
    let fifth = fourth.drop_first();
    assert(successes.len() > 1 ==> second[0] == successes[1]);
    assert(successes.len() > 2 ==> third[0] == successes[2]);
    assert(successes.len() > 3 ==> fourth[0] == successes[3]);
    assert(successes.len() > 4 ==> fifth[0] == successes[4]);
    let tried = tried_from(PersistStep::CreateDirectory, successes);
    let all = seq![
        PersistStep::CreateDirectory,
        PersistStep::CreateTemporary,
        PersistStep::WriteRecord,
        PersistStep::SyncFile,
        PersistStep::Rename,
        PersistStep::SyncDirectory,
    ];
    assert(tried =~= all.take(tried.len() as int));
}

/// A token is hashed whatever it says; only its length counts.
pub proof fn law_tokens_are_hashed_by_length(token: Seq<char>)
    ensures
        is_hashable(token) <==> encode_utf8(token).len() < 0x2000_0000_0000_0000,
{
}

/// The record of a creation holds what the pod was to be made of, each part as it
/// was given, and its path ends in its identity.
pub proof fn law_intents_record_what_was_asked_for(
    directory: &str,
    repo_path: &str,
    pod_name: &str,
    host: &Host,
    token: &str,
    made: (CreateIntent, PendingCreate),
)
    requires
        call_ensures(CreateIntent::new, (directory, repo_path, pod_name, host, token), made),
    ensures
        made.1.repo_path@ == repo_path@,
        made.1.pod_name@ == pod_name@,
        made.1.host@ == host@,
        made.1.creation@ == creation_id(token@),
        made.0.directory() == directory@,
        directory@.is_prefix_of(made.0.path()),
        made.0.path().skip(made.0.path().len() - made.1.creation@.len()) == made.1.creation@,
        directory@.len() > 0 && directory@.last() != '/' ==> made.0.path() == directory@.push('/')
            + made.1.creation@,
{
    law_paths_are_made_of_directory_and_name(directory@, creation_id(token@));
}

/// The record that a confirmation removes is the one that was written, and the
/// directory that is made durable is the one that it is in.
pub proof fn law_confirmations_remove_the_record(
    intent: CreateIntent,
    directory: &str,
    path: &str,
    removed: String,
)
    requires
        call_ensures(CreateIntent::record_directory, (&intent,), directory),
        call_ensures(CreateIntent::record_path, (&intent,), path),
        call_ensures(CreateIntent::confirmed, (intent,), removed),
    ensures
        removed@ == path@,
        removed@ == intent.path(),
        directory@ == intent.directory(),
{
}

/// A confirmation succeeds exactly if the record could be removed, and fails with
/// the whole cause else.
pub proof fn law_confirmations_succeed_with_the_removal(
    outcome: Result<(), String>,
    confirmed: Result<(), Failure>,
)
    requires
        call_ensures(confirmation, (outcome,), confirmed),
    ensures
        confirmed is Ok <==> outcome is Ok,
        outcome is Err ==> confirmed->Err_0@ == (FailureView {
            message: "confirming backend creation"@,
            cause: Some(outcome->Err_0@),
        }),
{
}

/// A step goes on exactly if it succeeded, and ends with a failure that holds the
/// whole cause else.
pub proof fn law_steps_go_on_when_they_succeed(
    step: PersistStep,
    outcome: Result<(), String>,
    next: Result<Option<PersistStep>, Failure>,
)
    requires
        call_ensures(PersistStep::ended, (step, outcome), next),
    ensures
        next is Ok <==> outcome is Ok,
        outcome is Ok ==> (next->Ok_0 is None <==> step == PersistStep::SyncDirectory),
        outcome is Ok && next->Ok_0 is Some ==> steps_left(next->Ok_0->0) + 1 == steps_left(step),
        outcome is Err ==> next->Err_0@.message == outcome->Err_0@ || next->Err_0@.cause == Some(
            outcome->Err_0@,
        ),
{
}

/// Where the path of the database is not known, the directory of the records is
/// not either, for the same cause; else it stands beside the database.
pub proof fn law_records_stand_beside_the_database(
    db_path: Result<String, String>,
    found: Result<String, String>,
    parent: Seq<char>,
    file: Seq<char>,
)
    requires
        call_ensures(directory, (db_path,), found),
    ensures
        found is Ok <==> db_path is Ok,
        db_path is Err ==> found->Err_0@ == db_path->Err_0@,
        db_path is Ok && is_plain_directory(parent) && is_file_name(file) && db_path->Ok_0@ == parent
            + (seq!['/'] + file) ==> found->Ok_0@ == parent + "/pending-creations"@,
{
}

} // verus!
