//! Deleting the creations that no pod wants any more.
//!
//! The daemon walks the directory of records now and then. For each entry a
//! [`Cleanup`] says where the daemon stands, and [`Cleanup::step`] says what to
//! do with what the last action brought. A record stays where it is whatever
//! happens: an accepted request may still finish later, and the identity in
//! the record keeps pods made since from being taken for it.
use vstd::prelude::*;
use vstd::string::*;

use crate::config::Host;
use crate::config::HostView;
use crate::creation::creation_id;
use crate::creation::id;
use crate::creation::is_finalized;
use crate::creation::is_finalized_name;
use crate::creation::is_hashable;
use crate::creation::law_finalized_names_are_hexadecimal;
use crate::creation::DELETE_TIMEOUT_SECS;
use crate::creation::Files;
use crate::creation::PendingCreate;
use crate::creation::PendingView;
use crate::text::same_text;

verus! {

/// What a look at the file system found.
#[derive(Debug)]
pub enum Found<T> {
    Present(T),
    /// There is nothing of that name.
    Missing,
    Failed(String),
}

impl<T> Found<T> {
    /// What was found, where a missing file is no failure.
    pub fn or_nothing(self) -> (r: Result<Option<T>, String>)
        ensures
            match self {
                Found::Present(found) => r == Ok::<Option<T>, String>(Some(found)),
                Found::Missing => r == Ok::<Option<T>, String>(None),
                Found::Failed(cause) => r == Err::<Option<T>, String>(cause),
            },
    {
        match self {
            Found::Present(found) => Ok(Some(found)),
            Found::Missing => Ok(None),
            Found::Failed(cause) => Err(cause),
        }
    }
}

/// Where the daemon stands with one entry of the directory.
#[derive(Debug)]
pub enum Cleanup {
    /// The file is being read.
    Reading { name: String },
    /// The bytes of the file are being parsed.
    Parsing { name: String },
    /// The lease of the pod's lifecycle lock is being taken.
    Leasing { name: String, record: PendingCreate },
    /// The pod is being looked up, under the lease.
    LookingUp { name: String, record: PendingCreate },
    /// The creation is being deleted, under the lease.
    Deleting { name: String },
}

/// What an action brought.
#[derive(Debug)]
pub enum CleanupEvent {
    Read(Found<Vec<u8>>),
    Parsed(Result<PendingCreate, String>),
    /// Whether the lease was free.
    Leased(bool),
    /// The token of the pod that now has the record's name, if there is one.
    Pod(Result<Option<String>, String>),
    /// Whether the creation was deleted in time.
    Deleted(Result<(), String>),
}

/// What to do next.
#[derive(Debug)]
pub enum CleanupAction {
    Parse(Vec<u8>),
    /// Take the lease of the pod's lifecycle lock, if that is possible without
    /// waiting, and keep it until the entry is done.
    TryLease { repo_path: String, pod_name: String },
    LookUpPod { repo_path: String, pod_name: String },
    /// Delete whatever the backend has created with this identity.
    DeleteCreation { host: Host, creation: String },
}

/// What follows from an event.
#[derive(Debug)]
pub enum CleanupStep {
    Perform { next: Cleanup, action: CleanupAction },
    /// The entry is done; go on with the next one.
    Leave { log: Option<String> },
    /// The whole pass over the directory ends.
    Abort(String),
    /// The event does not answer the action that was asked for.
    Unexpected(Cleanup),
}

/// A [`Cleanup`] with its text as characters.
pub enum CleanupStage {
    Reading { name: Seq<char> },
    Parsing { name: Seq<char> },
    Leasing { name: Seq<char>, record: PendingView },
    LookingUp { name: Seq<char>, record: PendingView },
    Deleting { name: Seq<char> },
}

/// A [`CleanupEvent`] with its text as characters.
pub enum CleanupEventView {
    Present(Seq<u8>),
    Missing,
    Unreadable(Seq<char>),
    Parsed(PendingView),
    Unparsable(Seq<char>),
    Leased(bool),
    Pod(Option<Seq<char>>),
    LookupFailed(Seq<char>),
    Deleted,
    DeleteFailed(Seq<char>),
}

/// A [`CleanupAction`] with its text as characters.
pub enum CleanupActionView {
    Parse(Seq<u8>),
    TryLease { repo_path: Seq<char>, pod_name: Seq<char> },
    LookUpPod { repo_path: Seq<char>, pod_name: Seq<char> },
    DeleteCreation { host: HostView, creation: Seq<char> },
}

/// A [`CleanupStep`] with its text as characters.
pub enum CleanupMove {
    Perform { next: CleanupStage, action: CleanupActionView },
    Leave { log: Option<Seq<char>> },
    Abort(Seq<char>),
    Unexpected(CleanupStage),
}

impl View for Cleanup {
    type V = CleanupStage;

    open spec fn view(&self) -> CleanupStage {
        match self {
            Cleanup::Reading { name } => CleanupStage::Reading { name: name@ },
            Cleanup::Parsing { name } => CleanupStage::Parsing { name: name@ },
            Cleanup::Leasing { name, record } => CleanupStage::Leasing {
                name: name@,
                record: record@,
            },
            Cleanup::LookingUp { name, record } => CleanupStage::LookingUp {
                name: name@,
                record: record@,
            },
            Cleanup::Deleting { name } => CleanupStage::Deleting { name: name@ },
        }
    }
}

impl View for CleanupEvent {
    type V = CleanupEventView;

    open spec fn view(&self) -> CleanupEventView {
        match self {
            CleanupEvent::Read(Found::Present(bytes)) => CleanupEventView::Present(bytes@),
            CleanupEvent::Read(Found::Missing) => CleanupEventView::Missing,
            CleanupEvent::Read(Found::Failed(cause)) => CleanupEventView::Unreadable(cause@),
            CleanupEvent::Parsed(Ok(record)) => CleanupEventView::Parsed(record@),
            CleanupEvent::Parsed(Err(cause)) => CleanupEventView::Unparsable(cause@),
            CleanupEvent::Leased(granted) => CleanupEventView::Leased(*granted),
            CleanupEvent::Pod(Ok(Some(token))) => CleanupEventView::Pod(Some(token@)),
            CleanupEvent::Pod(Ok(None)) => CleanupEventView::Pod(None),
            CleanupEvent::Pod(Err(cause)) => CleanupEventView::LookupFailed(cause@),
            CleanupEvent::Deleted(Ok(_)) => CleanupEventView::Deleted,
            CleanupEvent::Deleted(Err(cause)) => CleanupEventView::DeleteFailed(cause@),
        }
    }
}

impl View for CleanupAction {
    type V = CleanupActionView;

    open spec fn view(&self) -> CleanupActionView {
        match self {
            CleanupAction::Parse(bytes) => CleanupActionView::Parse(bytes@),
            CleanupAction::TryLease { repo_path, pod_name } => CleanupActionView::TryLease {
                repo_path: repo_path@,
                pod_name: pod_name@,
            },
            CleanupAction::LookUpPod { repo_path, pod_name } => CleanupActionView::LookUpPod {
                repo_path: repo_path@,
                pod_name: pod_name@,
            },
            CleanupAction::DeleteCreation { host, creation } => CleanupActionView::DeleteCreation {
                host: host@,
                creation: creation@,
            },
        }
    }
}

impl View for CleanupStep {
    type V = CleanupMove;

    open spec fn view(&self) -> CleanupMove {
        match self {
            CleanupStep::Perform { next, action } => CleanupMove::Perform {
                next: next@,
                action: action@,
            },
            CleanupStep::Leave { log: Some(line) } => CleanupMove::Leave { log: Some(line@) },
            CleanupStep::Leave { log: None } => CleanupMove::Leave { log: None },
            CleanupStep::Abort(cause) => CleanupMove::Abort(cause@),
            CleanupStep::Unexpected(stage) => CleanupMove::Unexpected(stage@),
        }
    }
}

/// Whether the pod that has the record's name now, if any, is the one that the
/// record's creation was for.
pub open spec fn is_wanted(record: PendingView, token: Option<Seq<char>>) -> bool {
    match token {
        Some(token) => creation_id(token) == record.creation,
        None => false,
    }
}

/// What follows once it is known whether a record's creation is wanted.
pub open spec fn judged_move(name: Seq<char>, record: PendingView, wanted: bool) -> CleanupMove {
    if wanted {
        CleanupMove::Leave { log: None }
    } else {
        CleanupMove::Perform {
            next: CleanupStage::Deleting { name },
            action: CleanupActionView::DeleteCreation {
                host: record.host,
                creation: record.creation,
            },
        }
    }
}

/// What follows from `event` at `stage`.
pub open spec fn cleanup_move(stage: CleanupStage, event: CleanupEventView) -> CleanupMove {
    match (stage, event) {
        (CleanupStage::Reading { name }, CleanupEventView::Present(bytes)) => CleanupMove::Perform {
            next: CleanupStage::Parsing { name },
            action: CleanupActionView::Parse(bytes),
        },
        (CleanupStage::Reading { name }, CleanupEventView::Missing) => CleanupMove::Leave {
            log: None,
        },
        (CleanupStage::Reading { name }, CleanupEventView::Unreadable(cause)) => CleanupMove::Abort(
            cause,
        ),
        (CleanupStage::Parsing { name }, CleanupEventView::Parsed(record)) => CleanupMove::Perform {
            next: CleanupStage::Leasing { name, record },
            action: CleanupActionView::TryLease {
                repo_path: record.repo_path,
                pod_name: record.pod_name,
            },
        },
        (CleanupStage::Parsing { name }, CleanupEventView::Unparsable(cause)) => CleanupMove::Abort(
            cause,
        ),
        (CleanupStage::Leasing { name, record }, CleanupEventView::Leased(granted)) => if granted {
            CleanupMove::Perform {
                next: CleanupStage::LookingUp { name, record },
                action: CleanupActionView::LookUpPod {
                    repo_path: record.repo_path,
                    pod_name: record.pod_name,
                },
            }
        } else {
            CleanupMove::Leave { log: None }
        },
        (CleanupStage::LookingUp { name, record }, CleanupEventView::Pod(token)) => judged_move(
            name,
            record,
            is_wanted(record, token),
        ),
        (CleanupStage::LookingUp { name, record }, CleanupEventView::LookupFailed(cause)) =>
            CleanupMove::Abort(cause),
        (CleanupStage::Deleting { name }, CleanupEventView::Deleted) => CleanupMove::Leave {
            log: None,
        },
        (CleanupStage::Deleting { name }, CleanupEventView::DeleteFailed(cause)) =>
            CleanupMove::Leave { log: Some("cleaning up creation "@ + name + ": "@ + cause) },
        _ => CleanupMove::Unexpected(stage),
    }
}

/// Whether the token that `event` brings, if any, can be hashed.
pub open spec fn has_hashable_token(event: CleanupEventView) -> bool {
    match event {
        CleanupEventView::Pod(Some(token)) => is_hashable(token),
        _ => true,
    }
}

/// What follows for the entry `name` once the pod that has the record's name now
/// was looked up, where `creation` is the identity of that pod's creation.
pub fn looked_up(name: String, record: PendingCreate, creation: Option<String>) -> (r: CleanupStep)
    ensures
        r@ == judged_move(name@, record@, creation.deep_view() == Some(record@.creation)),
        creation is Some && creation->0@ == record.creation@ ==> r == (CleanupStep::Leave {
            log: None,
        }),
        creation is None || creation->0@ != record.creation@ ==> r is Perform && r->action == (
        CleanupAction::DeleteCreation { host: record.host, creation: record.creation }),
{
    let wanted = match &creation {
        Some(creation) => same_text(creation.as_str(), record.creation.as_str()),
        None => false,
    };
    if wanted {
        CleanupStep::Leave { log: None }
    } else {
        CleanupStep::Perform {
            next: Cleanup::Deleting { name },
            action: CleanupAction::DeleteCreation { host: record.host, creation: record.creation },
        }
    }
}

impl Cleanup {
    /// Where to start with the entry `name`: only a finalized record is read,
    /// any other entry is left alone.
    pub fn enter(name: &str) -> (r: Option<Cleanup>)
        ensures
            r is Some <==> is_finalized(name@),
            r is Some ==> r->0@ == (CleanupStage::Reading { name: name@ }),
    {
        if is_finalized_name(name) {
            Some(Cleanup::Reading { name: name.to_owned() })
        } else {
            None
        }
    }

    /// What follows from what the last action brought. At the start that is
    /// reading the file.
    pub fn step(self, event: CleanupEvent) -> (r: CleanupStep)
        requires
            has_hashable_token(event@),
        ensures
            r@ == cleanup_move(self@, event@),
            self is LookingUp && event is Pod && event->Pod_0 is Ok && (event->Pod_0->Ok_0 is None
                || creation_id(event->Pod_0->Ok_0->0@) != self->LookingUp_record.creation@) ==> r is Perform
                && r->action == (CleanupAction::DeleteCreation {
                host: self->LookingUp_record.host,
                creation: self->LookingUp_record.creation,
            }),
    {
        match (self, event) {
            (Cleanup::Reading { name }, CleanupEvent::Read(found)) => match found {
                Found::Present(bytes) => CleanupStep::Perform {
                    next: Cleanup::Parsing { name },
                    action: CleanupAction::Parse(bytes),
                },
                Found::Missing => CleanupStep::Leave { log: None },
                Found::Failed(cause) => CleanupStep::Abort(cause),
            },
            (Cleanup::Parsing { name }, CleanupEvent::Parsed(parsed)) => match parsed {
                Ok(record) => {
                    let action = CleanupAction::TryLease {
                        repo_path: record.repo_path.clone(),
                        pod_name: record.pod_name.clone(),
                    };
                    CleanupStep::Perform { next: Cleanup::Leasing { name, record }, action }
                },
                Err(cause) => CleanupStep::Abort(cause),
            },
            (Cleanup::Leasing { name, record }, CleanupEvent::Leased(granted)) => {
                if granted {
                    let action = CleanupAction::LookUpPod {
                        repo_path: record.repo_path.clone(),
                        pod_name: record.pod_name.clone(),
                    };
                    CleanupStep::Perform { next: Cleanup::LookingUp { name, record }, action }
                } else {
                    CleanupStep::Leave { log: None }
                }
            },
            (Cleanup::LookingUp { name, record }, CleanupEvent::Pod(found)) => match found {
                Ok(Some(token)) => looked_up(name, record, Some(id(token.as_str()))),
                Ok(None) => looked_up(name, record, None),
                Err(cause) => CleanupStep::Abort(cause),
            },
            (Cleanup::Deleting { name }, CleanupEvent::Deleted(outcome)) => match outcome {
                Ok(_) => CleanupStep::Leave { log: None },
                Err(cause) => {
                    let mut line = "cleaning up creation ".to_owned();
                    line.append(name.as_str());
                    line.append(": ");
                    line.append(cause.as_str());
                    CleanupStep::Leave { log: Some(line) }
                },
            },
            (stage, _) => CleanupStep::Unexpected(stage),
        }
    }
}

/// What the daemon hears of while it passes over the directory.
#[derive(Debug)]
pub enum PassEvent {
    /// The directory was opened, or could not be.
    Opened(Found<()>),
    /// The next entry, by its name, or why it cannot be told.
    Entry(Result<String, String>),
    NoMoreEntries,
    /// The last entry is done, see [`CleanupStep::Leave`].
    Left(Option<String>),
    /// The last entry ends the pass, see [`CleanupStep::Abort`].
    Aborted(String),
}

/// What the daemon does next in a pass.
#[derive(Debug)]
pub enum PassStep {
    /// Log the line, if there is one, and look at the next entry.
    NextEntry { line: Option<String> },
    /// Clean up behind the entry.
    Clean(Cleanup),
    /// The pass is over.
    Finished(Result<(), String>),
}

/// A [`PassEvent`] with its text as characters.
pub enum PassEventView {
    Opened,
    Missing,
    NotOpened(Seq<char>),
    Entry(Seq<char>),
    NoEntry(Seq<char>),
    NoMoreEntries,
    Left(Option<Seq<char>>),
    Aborted(Seq<char>),
}

/// A [`PassStep`] with its text as characters.
pub enum PassMove {
    NextEntry { line: Option<Seq<char>> },
    Clean(CleanupStage),
    Finished(Result<(), Seq<char>>),
}

impl View for PassEvent {
    type V = PassEventView;

    open spec fn view(&self) -> PassEventView {
        match self {
            PassEvent::Opened(Found::Present(_)) => PassEventView::Opened,
            PassEvent::Opened(Found::Missing) => PassEventView::Missing,
            PassEvent::Opened(Found::Failed(cause)) => PassEventView::NotOpened(cause@),
            PassEvent::Entry(Ok(name)) => PassEventView::Entry(name@),
            PassEvent::Entry(Err(cause)) => PassEventView::NoEntry(cause@),
            PassEvent::NoMoreEntries => PassEventView::NoMoreEntries,
            PassEvent::Left(line) => PassEventView::Left(line.deep_view()),
            PassEvent::Aborted(cause) => PassEventView::Aborted(cause@),
        }
    }
}

impl View for PassStep {
    type V = PassMove;

    open spec fn view(&self) -> PassMove {
        match self {
            PassStep::NextEntry { line } => PassMove::NextEntry { line: line.deep_view() },
            PassStep::Clean(cleanup) => PassMove::Clean(cleanup@),
            PassStep::Finished(Ok(_)) => PassMove::Finished(Ok(())),
            PassStep::Finished(Err(cause)) => PassMove::Finished(Err(cause@)),
        }
    }
}

/// What follows from `event` in a pass. Without a directory there is nothing to
/// clean up; only the names of finalized records are looked behind.
pub open spec fn pass_move(event: PassEventView) -> PassMove {
    match event {
        PassEventView::Opened => PassMove::NextEntry { line: None },
        PassEventView::Missing => PassMove::Finished(Ok(())),
        PassEventView::NotOpened(cause) => PassMove::Finished(Err(cause)),
        PassEventView::Entry(name) => if is_finalized(name) {
            PassMove::Clean(CleanupStage::Reading { name })
        } else {
            PassMove::NextEntry { line: None }
        },
        PassEventView::NoEntry(cause) => PassMove::Finished(Err(cause)),
        PassEventView::NoMoreEntries => PassMove::Finished(Ok(())),
        PassEventView::Left(line) => PassMove::NextEntry { line },
        PassEventView::Aborted(cause) => PassMove::Finished(Err(cause)),
    }
}

/// What follows from `event` in a pass.
pub fn pass_step(event: PassEvent) -> (r: PassStep)
    ensures
        r@ == pass_move(event@),
{
    match event {
        PassEvent::Opened(found) => match found.or_nothing() {
            Ok(Some(_)) => PassStep::NextEntry { line: None },
            Ok(None) => PassStep::Finished(Ok(())),
            Err(cause) => PassStep::Finished(Err(cause)),
        },
        PassEvent::Entry(Ok(name)) => match Cleanup::enter(name.as_str()) {
            Some(cleanup) => PassStep::Clean(cleanup),
            None => PassStep::NextEntry { line: None },
        },
        PassEvent::Entry(Err(cause)) => PassStep::Finished(Err(cause)),
        PassEvent::NoMoreEntries => PassStep::Finished(Ok(())),
        PassEvent::Left(line) => PassStep::NextEntry { line },
        PassEvent::Aborted(cause) => PassStep::Finished(Err(cause)),
    }
}

/// What a pass did: the entries that were cleaned up behind, the lines that were
/// logged, and what the pass came to, if it is over.
pub struct PassTrace {
    pub tried: Seq<Seq<char>>,
    pub logged: Seq<Seq<char>>,
    pub result: Option<Result<(), Seq<char>>>,
}

/// The line as a sequence.
pub open spec fn line_seq(line: Option<Seq<char>>) -> Seq<Seq<char>> {
    match line {
        Some(line) => seq![line],
        None => seq![],
    }
}

/// What a pass does that hears of `events`.
pub open spec fn pass_run(events: Seq<PassEventView>) -> PassTrace
    decreases events.len(),
{
    if events.len() == 0 {
        PassTrace { tried: seq![], logged: seq![], result: None }
    } else {
        let rest = pass_run(events.drop_first());
        match pass_move(events[0]) {
            PassMove::NextEntry { line } => PassTrace {
                logged: line_seq(line) + rest.logged,
                ..rest
            },
            PassMove::Clean(stage) => PassTrace {
                tried: seq![stage->Reading_name] + rest.tried,
                ..rest
            },
            PassMove::Finished(result) => PassTrace {
                tried: seq![],
                logged: seq![],
                result: Some(result),
            },
        }
    }
}

/// An entry of the directory and, where it is a finalized record, how cleaning up
/// behind it ends: it is left, with a line to log if there is one, or it ends the
/// pass.
pub struct PassEntry {
    pub name: Seq<char>,
    pub end: Result<Option<Seq<char>>, Seq<char>>,
}

/// What a pass hears of one entry.
pub open spec fn entry_events(entry: PassEntry) -> Seq<PassEventView> {
    if is_finalized(entry.name) {
        seq![
            PassEventView::Entry(entry.name),
            match entry.end {
                Ok(line) => PassEventView::Left(line),
                Err(cause) => PassEventView::Aborted(cause),
            },
        ]
    } else {
        seq![PassEventView::Entry(entry.name)]
    }
}

/// What a pass hears of `entries`, one behind the other.
pub open spec fn events_of(entries: Seq<PassEntry>) -> Seq<PassEventView>
    decreases entries.len(),
{
    if entries.len() == 0 {
        seq![]
    } else {
        entry_events(entries[0]) + events_of(entries.drop_first())
    }
}

/// The names of the finalized records among `entries`, in order.
pub open spec fn records_of(entries: Seq<PassEntry>) -> Seq<Seq<char>>
    decreases entries.len(),
{
    if entries.len() == 0 {
        seq![]
    } else if is_finalized(entries[0].name) {
        seq![entries[0].name] + records_of(entries.drop_first())
    } else {
        records_of(entries.drop_first())
    }
}

/// The lines that the records among `entries` leave behind, in order.
pub open spec fn lines_left(entries: Seq<PassEntry>) -> Seq<Seq<char>>
    decreases entries.len(),
{
    if entries.len() == 0 {
        seq![]
    } else if is_finalized(entries[0].name) && entries[0].end is Ok {
        line_seq(entries[0].end->Ok_0) + lines_left(entries.drop_first())
    } else {
        lines_left(entries.drop_first())
    }
}

/// Whether no record among `entries` ends the pass.
pub open spec fn all_left(entries: Seq<PassEntry>) -> bool {
    forall|i: int|
        0 <= i < entries.len() && is_finalized(entries[i].name) ==> (#[trigger] entries[i]).end is Ok
}

proof fn lemma_pass(entries: Seq<PassEntry>, behind: Seq<PassEventView>)
    requires
        all_left(entries),
    ensures
        pass_run(events_of(entries) + behind) == (PassTrace {
            tried: records_of(entries) + pass_run(behind).tried,
            logged: lines_left(entries) + pass_run(behind).logged,
            result: pass_run(behind).result,
        }),
    decreases entries.len(),
{
    let whole = events_of(entries) + behind;
    if entries.len() == 0 {
        assert(whole =~= behind);
        assert(records_of(entries) + pass_run(behind).tried =~= pass_run(behind).tried);
        assert(lines_left(entries) + pass_run(behind).logged =~= pass_run(behind).logged);
    } else {
        let entry = entries[0];
        let rest = entries.drop_first();
        assert forall|i: int| 0 <= i < rest.len() && is_finalized(rest[i].name) implies (
        #[trigger] rest[i]).end is Ok by {
            assert(rest[i] == entries[i + 1]);
        }
        lemma_pass(rest, behind);
        let later = events_of(rest) + behind;
        reveal_with_fuel(pass_run, 3);
        if is_finalized(entry.name) {
            assert(whole.drop_first().drop_first() =~= later);
            assert(whole.drop_first()[0] == PassEventView::Left(entry.end->Ok_0));
        } else {
            assert(whole.drop_first() =~= later);
        }
        assert(pass_run(whole).tried =~= records_of(entries) + pass_run(behind).tried);
        assert(pass_run(whole).logged =~= lines_left(entries) + pass_run(behind).logged);
    }
}

/// A pass cleans up behind every finalized record of the directory, in order, and
/// behind nothing else; one that could not be deleted is logged and does not keep
/// the pass from those behind it.
pub proof fn law_every_record_is_tried(entries: Seq<PassEntry>)
    requires
        all_left(entries),
    ensures
        pass_run(events_of(entries).push(PassEventView::NoMoreEntries)) == (PassTrace {
            tried: records_of(entries),
            logged: lines_left(entries),
            result: Some(Ok(())),
        }),
{
    let end = seq![PassEventView::NoMoreEntries];
    lemma_pass(entries, end);
    assert(events_of(entries).push(PassEventView::NoMoreEntries) =~= events_of(entries) + end);
    assert(records_of(entries) + pass_run(end).tried =~= records_of(entries));
    assert(lines_left(entries) + pass_run(end).logged =~= lines_left(entries));
}

/// A record that ends the pass is the last that is looked at: what the pass comes
/// to is its cause, and nothing behind it is tried, whatever stands there.
pub proof fn law_aborts_end_the_pass(
    before: Seq<PassEntry>,
    entry: PassEntry,
    behind: Seq<PassEventView>,
)
    requires
        all_left(before),
        is_finalized(entry.name),
        entry.end is Err,
    ensures
        pass_run(events_of(before) + (entry_events(entry) + behind)) == (PassTrace {
            tried: records_of(before).push(entry.name),
            logged: lines_left(before),
            result: Some(Err(entry.end->Err_0)),
        }),
{
    let tail = entry_events(entry) + behind;
    lemma_pass(before, tail);
    reveal_with_fuel(pass_run, 3);
    assert(tail.drop_first()[0] == PassEventView::Aborted(entry.end->Err_0));
    assert(pass_run(tail).tried =~= seq![entry.name]);
    assert(records_of(before) + pass_run(tail).tried =~= records_of(before).push(entry.name));
    assert(lines_left(before) + pass_run(tail).logged =~= lines_left(before));
}

/// How often the directory is walked, in milliseconds.
pub fn cleanup_interval_millis(test_mode: bool) -> (r: u64)
    ensures
        r == if test_mode {
            250u64
        } else {
            30_000u64
        },
{
    if test_mode {
        250
    } else {
        30_000
    }
}

/// The line to log when a pass over the directory ended early.
pub fn pass_failed_text(cause: &str) -> (r: String)
    ensures
        r@ == "cleaning up unconfirmed creations: "@ + cause@,
{
    "cleaning up unconfirmed creations: ".to_owned().concat(cause)
}

/// The actions taken for the entry `name` when they bring `events`, in order.
pub open spec fn cleanup_actions(
    stage: CleanupStage,
    events: Seq<CleanupEventView>,
) -> Seq<CleanupActionView>
    decreases events.len(),
{
    if events.len() == 0 {
        seq![]
    } else {
        match cleanup_move(stage, events[0]) {
            CleanupMove::Perform { next, action } => seq![action] + cleanup_actions(
                next,
                events.drop_first(),
            ),
            _ => seq![],
        }
    }
}

/// Whether `events` tell of an entry whose record was read and parsed to
/// `record`, whose pod's lease was granted, and which no pod wants.
pub open spec fn is_unwanted_under_lease(
    record: PendingView,
    events: Seq<CleanupEventView>,
) -> bool {
    &&& events.len() >= 4
    &&& events[0] is Present
    &&& events[1] == CleanupEventView::Parsed(record)
    &&& events[2] == CleanupEventView::Leased(true)
    &&& events[3] is Pod
    &&& !is_wanted(record, events[3]->Pod_0)
}

/// A creation is deleted only after its record was read, the lease of its pod
/// was granted, and the pod of that name, looked up under the lease, turned out
/// not to be the one that the creation was for; and what is deleted is the
/// record's own creation on the record's own host.
pub proof fn law_only_unwanted_creations_are_deleted(
    name: Seq<char>,
    events: Seq<CleanupEventView>,
    at: int,
    host: HostView,
    creation: Seq<char>,
)
    requires
        0 <= at < cleanup_actions(CleanupStage::Reading { name }, events).len(),
        cleanup_actions(CleanupStage::Reading { name }, events)[at]
            == (CleanupActionView::DeleteCreation { host, creation }),
    ensures
        at == 3,
        events[1] is Parsed,
        is_unwanted_under_lease(events[1]->Parsed_0, events),
        host == events[1]->Parsed_0.host,
        creation == events[1]->Parsed_0.creation,
{
    reveal_with_fuel(cleanup_actions, 6);
    let second = events.drop_first();
    let third = second.drop_first();
    let fourth = third.drop_first();
    assert(events.len() > 1 ==> second[0] == events[1]);
    assert(events.len() > 2 ==> third[0] == events[2]);
    assert(events.len() > 3 ==> fourth[0] == events[3]);
}

/// The pod whose token made the record keeps its creation: nothing is deleted
/// for an entry whose pod turns out to have that token.
pub proof fn law_wanted_creations_are_kept(
    name: Seq<char>,
    events: Seq<CleanupEventView>,
    token: Seq<char>,
)
    requires
        events.len() >= 4,
        events[1] is Parsed,
        events[1]->Parsed_0.creation == creation_id(token),
        events[3] == CleanupEventView::Pod(Some(token)),
    ensures
        forall|at: int|
            0 <= at < cleanup_actions(CleanupStage::Reading { name }, events).len()
                ==> !(#[trigger] cleanup_actions(CleanupStage::Reading { name }, events)[at] is DeleteCreation),
{
    let actions = cleanup_actions(CleanupStage::Reading { name }, events);
    assert forall|at: int| 0 <= at < actions.len() implies !(#[trigger] actions[at] is DeleteCreation) by {
        if actions[at] is DeleteCreation {
            law_only_unwanted_creations_are_deleted(
                name,
                events,
                at,
                actions[at]->DeleteCreation_host,
                actions[at]->DeleteCreation_creation,
            );
        }
    }
}

/// What `action` makes of the files of the directory: it parses bytes that were
/// read, asks the daemon, or has a backend delete what it created. None of these
/// writes, renames or removes a file of the directory.
pub open spec fn files_after_action(files: Files, action: CleanupActionView) -> Files {
    match action {
        CleanupActionView::Parse(_) => files,
        CleanupActionView::TryLease { .. } => files,
        CleanupActionView::LookUpPod { .. } => files,
        CleanupActionView::DeleteCreation { .. } => files,
    }
}

/// What `actions` make of the files of the directory, one behind the other.
pub open spec fn files_after_actions(files: Files, actions: Seq<CleanupActionView>) -> Files
    decreases actions.len(),
{
    if actions.len() == 0 {
        files
    } else {
        files_after_actions(files_after_action(files, actions[0]), actions.drop_first())
    }
}

proof fn lemma_actions_keep_files(files: Files, actions: Seq<CleanupActionView>)
    ensures
        files_after_actions(files, actions) == files,
    decreases actions.len(),
{
    if actions.len() > 0 {
        lemma_actions_keep_files(files, actions.drop_first());
    }
}

/// The records are kept while an entry is cleaned up behind, whatever its actions
/// bring: an accepted request may still finish later, so not even a deleted
/// creation takes its record along.
pub proof fn law_records_are_kept(name: Seq<char>, events: Seq<CleanupEventView>, files: Files)
    ensures
        files_after_actions(
            files,
            cleanup_actions(CleanupStage::Reading { name }, events),
        ) == files,
{
    lemma_actions_keep_files(files, cleanup_actions(CleanupStage::Reading { name }, events));
}

/// The actions of a pass that cleans up behind the entries `tried`, where the
/// actions for each of them bring what stands in its place in `brought`.
pub open spec fn pass_actions(
    tried: Seq<Seq<char>>,
    brought: Seq<Seq<CleanupEventView>>,
) -> Seq<CleanupActionView>
    decreases tried.len(),
{
    if tried.len() == 0 {
        seq![]
    } else {
        cleanup_actions(CleanupStage::Reading { name: tried[0] }, brought[0]) + pass_actions(
            tried.drop_first(),
            brought.drop_first(),
        )
    }
}

/// A whole pass leaves the directory with the files and contents it had, whatever
/// the pass hears of, whatever the actions for each entry bring, and whatever the
/// pass comes to.
pub proof fn law_passes_keep_the_records(
    events: Seq<PassEventView>,
    brought: Seq<Seq<CleanupEventView>>,
    files: Files,
)
    ensures
        files_after_actions(files, pass_actions(pass_run(events).tried, brought)) == files,
{
    lemma_actions_keep_files(files, pass_actions(pass_run(events).tried, brought));
}

/// Whether `event` is of the kind that `stage` waits for.
pub open spec fn is_awaited(stage: CleanupStage, event: CleanupEventView) -> bool {
    match stage {
        CleanupStage::Reading { .. } => event is Present || event is Missing || event is Unreadable,
        CleanupStage::Parsing { .. } => event is Parsed || event is Unparsable,
        CleanupStage::Leasing { .. } => event is Leased,
        CleanupStage::LookingUp { .. } => event is Pod || event is LookupFailed,
        CleanupStage::Deleting { .. } => event is Deleted || event is DeleteFailed,
    }
}

/// Whether `event` is of the kind that `action` brings.
pub open spec fn brings(action: CleanupActionView, event: CleanupEventView) -> bool {
    match action {
        CleanupActionView::Parse(_) => event is Parsed || event is Unparsable,
        CleanupActionView::TryLease { .. } => event is Leased,
        CleanupActionView::LookUpPod { .. } => event is Pod || event is LookupFailed,
        CleanupActionView::DeleteCreation { .. } => event is Deleted || event is DeleteFailed,
    }
}

/// An event is unexpected exactly if it is not of the kind that the stage waits
/// for; and what the action that was asked for brings is always of that kind.
pub proof fn law_answers_to_actions_are_expected(
    stage: CleanupStage,
    event: CleanupEventView,
    answer: CleanupEventView,
)
    ensures
        cleanup_move(stage, event) is Unexpected <==> !is_awaited(stage, event),
        cleanup_move(stage, event) matches CleanupMove::Perform { next, action } ==> (brings(
            action,
            answer,
        ) <==> is_awaited(next, answer)),
        cleanup_move(stage, event) matches CleanupMove::Perform { next, action } ==> (brings(
            action,
            answer,
        ) ==> !(cleanup_move(next, answer) is Unexpected)),
{
}

/// Every unwanted creation is deleted: whatever its host, once the record was read
/// and parsed, the lease granted and the pod of that name looked up, with no pod
/// there or one of another identity, the record's own creation is deleted on the
/// record's own host. A deletion is the last action for an entry, whatever it
/// brings.
pub proof fn law_unwanted_creations_are_deleted(
    name: Seq<char>,
    bytes: Seq<u8>,
    record: PendingView,
    token: Option<Seq<char>>,
    behind: Seq<CleanupEventView>,
)
    requires
        token is None || creation_id(token->0) != record.creation,
    ensures
        cleanup_actions(
            CleanupStage::Reading { name },
            seq![
                CleanupEventView::Present(bytes),
                CleanupEventView::Parsed(record),
                CleanupEventView::Leased(true),
                CleanupEventView::Pod(token),
            ] + behind,
        ) == seq![
            CleanupActionView::Parse(bytes),
            CleanupActionView::TryLease { repo_path: record.repo_path, pod_name: record.pod_name },
            CleanupActionView::LookUpPod { repo_path: record.repo_path, pod_name: record.pod_name },
            CleanupActionView::DeleteCreation { host: record.host, creation: record.creation },
        ],
{
    let events = seq![
        CleanupEventView::Present(bytes),
        CleanupEventView::Parsed(record),
        CleanupEventView::Leased(true),
        CleanupEventView::Pod(token),
    ] + behind;
    lemma_looked_up(name, bytes, record, token, behind);
    reveal_with_fuel(cleanup_actions, 3);
    let last = cleanup_actions(CleanupStage::Deleting { name }, behind);
    assert(last =~= seq![]);
    assert(cleanup_actions(CleanupStage::Reading { name }, events) =~= seq![
        CleanupActionView::Parse(bytes),
        CleanupActionView::TryLease { repo_path: record.repo_path, pod_name: record.pod_name },
        CleanupActionView::LookUpPod { repo_path: record.repo_path, pod_name: record.pod_name },
        CleanupActionView::DeleteCreation { host: record.host, creation: record.creation },
    ]);
}

proof fn lemma_looked_up(
    name: Seq<char>,
    bytes: Seq<u8>,
    record: PendingView,
    token: Option<Seq<char>>,
    behind: Seq<CleanupEventView>,
)
    ensures
        cleanup_actions(
            CleanupStage::Reading { name },
            seq![
                CleanupEventView::Present(bytes),
                CleanupEventView::Parsed(record),
                CleanupEventView::Leased(true),
                CleanupEventView::Pod(token),
            ] + behind,
        ) == seq![
            CleanupActionView::Parse(bytes),
            CleanupActionView::TryLease { repo_path: record.repo_path, pod_name: record.pod_name },
            CleanupActionView::LookUpPod { repo_path: record.repo_path, pod_name: record.pod_name },
        ] + cleanup_actions(
            CleanupStage::LookingUp { name, record },
            seq![CleanupEventView::Pod(token)] + behind,
        ),
{
    let events = seq![
        CleanupEventView::Present(bytes),
        CleanupEventView::Parsed(record),
        CleanupEventView::Leased(true),
        CleanupEventView::Pod(token),
    ] + behind;
    let second = events.drop_first();
    let third = second.drop_first();
    let fourth = third.drop_first();
    assert(fourth =~= seq![CleanupEventView::Pod(token)] + behind);
    assert((seq![CleanupEventView::Pod(token)] + behind).drop_first() =~= behind);
    let last = cleanup_actions(CleanupStage::LookingUp { name, record }, fourth);
    let look = seq![
        CleanupActionView::LookUpPod { repo_path: record.repo_path, pod_name: record.pod_name },
    ] + last;
    assert(cleanup_actions(CleanupStage::Leasing { name, record }, third) == look);
    let lease = seq![
        CleanupActionView::TryLease { repo_path: record.repo_path, pod_name: record.pod_name },
    ] + look;
    assert(cleanup_actions(CleanupStage::Parsing { name }, second) == lease);
    assert(cleanup_actions(CleanupStage::Reading { name }, events) == seq![
        CleanupActionView::Parse(bytes),
    ] + lease);
    assert(seq![CleanupActionView::Parse(bytes)] + lease =~= seq![
        CleanupActionView::Parse(bytes),
        CleanupActionView::TryLease { repo_path: record.repo_path, pod_name: record.pod_name },
        CleanupActionView::LookUpPod { repo_path: record.repo_path, pod_name: record.pod_name },
    ] + last);
}

/// A creation that its pod wants is looked up and left, without a word: nothing is
/// done behind the lookup.
pub proof fn law_wanted_creations_are_only_looked_up(
    name: Seq<char>,
    bytes: Seq<u8>,
    record: PendingView,
    token: Seq<char>,
    behind: Seq<CleanupEventView>,
)
    requires
        creation_id(token) == record.creation,
    ensures
        cleanup_actions(
            CleanupStage::Reading { name },
            seq![
                CleanupEventView::Present(bytes),
                CleanupEventView::Parsed(record),
                CleanupEventView::Leased(true),
                CleanupEventView::Pod(Some(token)),
            ] + behind,
        ) == seq![
            CleanupActionView::Parse(bytes),
            CleanupActionView::TryLease { repo_path: record.repo_path, pod_name: record.pod_name },
            CleanupActionView::LookUpPod { repo_path: record.repo_path, pod_name: record.pod_name },
        ],
        cleanup_move(
            CleanupStage::LookingUp { name, record },
            CleanupEventView::Pod(Some(token)),
        ) == (CleanupMove::Leave { log: None }),
{
    lemma_looked_up(name, bytes, record, Some(token), behind);
    let rest = seq![CleanupEventView::Pod(Some(token))] + behind;
    assert(cleanup_actions(CleanupStage::LookingUp { name, record }, rest) =~= seq![]);
}

/// What becomes of a record that was looked up rests on the identity that was found
/// alone: it is left exactly if that is the record's creation, and else the record's
/// creation is deleted on the record's host.
pub proof fn law_judgements_follow_the_identity(
    name: Seq<char>,
    record: PendingView,
    token: Option<Seq<char>>,
)
    ensures
        ({
            let judged = cleanup_move(
                CleanupStage::LookingUp { name, record },
                CleanupEventView::Pod(token),
            );
            &&& judged is Leave <==> token is Some && creation_id(token->0) == record.creation
            &&& judged is Leave ==> judged->log is None
            &&& !(judged is Leave) ==> judged is Perform && judged->action == (
            CleanupActionView::DeleteCreation { host: record.host, creation: record.creation })
            &&& !(judged is Leave) ==> judged->next == (CleanupStage::Deleting { name })
        }),
{
}

/// A record that cannot be read or parsed, and a pod that cannot be looked up, end
/// the pass with the whole cause.
pub proof fn law_failed_looks_end_the_pass(
    name: Seq<char>,
    record: PendingView,
    cause: Seq<char>,
)
    ensures
        cleanup_move(CleanupStage::Reading { name }, CleanupEventView::Unreadable(cause))
            == CleanupMove::Abort(cause),
        cleanup_move(CleanupStage::Parsing { name }, CleanupEventView::Unparsable(cause))
            == CleanupMove::Abort(cause),
        cleanup_move(
            CleanupStage::LookingUp { name, record },
            CleanupEventView::LookupFailed(cause),
        ) == CleanupMove::Abort(cause),
{
}

/// A record that is gone, and one whose pod is in use, are left without a word,
/// and so is one whose creation is deleted.
pub proof fn law_busy_and_settled_records_are_left(name: Seq<char>, record: PendingView)
    ensures
        cleanup_move(CleanupStage::Reading { name }, CleanupEventView::Missing) == (
        CleanupMove::Leave { log: None }),
        cleanup_move(CleanupStage::Leasing { name, record }, CleanupEventView::Leased(false)) == (
        CleanupMove::Leave { log: None }),
        cleanup_move(CleanupStage::Deleting { name }, CleanupEventView::Deleted) == (
        CleanupMove::Leave { log: None }),
{
}

/// A creation that could not be deleted is logged with the whole name of its
/// record and the whole cause, and does not end the pass.
pub proof fn law_failed_deletions_are_logged(name: Seq<char>, cause: Seq<char>)
    ensures
        ({
            let left = cleanup_move(
                CleanupStage::Deleting { name },
                CleanupEventView::DeleteFailed(cause),
            );
            let front = "cleaning up creation "@ + name;
            &&& left is Leave
            &&& left->log is Some
            &&& front.is_prefix_of(left->log->0)
            &&& left->log->0.skip(front.len() as int) == ": "@ + cause
        }),
{
    let left = cleanup_move(
        CleanupStage::Deleting { name },
        CleanupEventView::DeleteFailed(cause),
    );
    let front = "cleaning up creation "@ + name;
    assert(left->log->0.take(front.len() as int) =~= front);
    assert(left->log->0.skip(front.len() as int) =~= ": "@ + cause);
}

/// A pass over a directory that is not there succeeds; one whose directory cannot
/// be opened, or whose next entry cannot be told, fails with the whole cause. None
/// of them looks behind anything from there on.
pub proof fn law_passes_end_with_their_directory(cause: Seq<char>, behind: Seq<PassEventView>)
    ensures
        pass_run(seq![PassEventView::Missing] + behind) == (PassTrace {
            tried: seq![],
            logged: seq![],
            result: Some(Ok(())),
        }),
        pass_run(seq![PassEventView::NoMoreEntries] + behind) == (PassTrace {
            tried: seq![],
            logged: seq![],
            result: Some(Ok(())),
        }),
        pass_run(seq![PassEventView::NotOpened(cause)] + behind) == (PassTrace {
            tried: seq![],
            logged: seq![],
            result: Some(Err(cause)),
        }),
        pass_run(seq![PassEventView::NoEntry(cause)] + behind) == (PassTrace {
            tried: seq![],
            logged: seq![],
            result: Some(Err(cause)),
        }),
        pass_run(seq![PassEventView::Opened] + behind) == pass_run(behind),
{
    assert((seq![PassEventView::Opened] + behind).drop_first() =~= behind);
    let rest = pass_run(behind);
    assert(line_seq(None) + rest.logged =~= rest.logged);
}

/// An entry is cleaned up behind, under its own name, exactly if that name is 32
/// hexadecimal digits; any other is passed over without a word. What an entry
/// leaves to be logged is logged as it is.
pub proof fn law_only_identities_are_looked_behind(name: Seq<char>, line: Option<Seq<char>>)
    ensures
        pass_move(PassEventView::Entry(name)) is Clean <==> name.len() == 32 && forall|i: int|
            0 <= i < 32 ==> "0123456789abcdefABCDEF"@.contains(#[trigger] name[i]),
        pass_move(PassEventView::Entry(name)) is Clean ==> pass_move(PassEventView::Entry(name))
            == PassMove::Clean(CleanupStage::Reading { name }),
        !(pass_move(PassEventView::Entry(name)) is Clean) ==> pass_move(PassEventView::Entry(name))
            == (PassMove::NextEntry { line: None }),
        pass_move(PassEventView::Left(line)) == (PassMove::NextEntry { line }),
{
    law_finalized_names_are_hexadecimal(name);
}

/// Cleanups are viewed with all that they hold.
pub proof fn law_cleanups_are_viewed_whole(
    name: String,
    record: PendingCreate,
    host: Host,
    bytes: Vec<u8>,
    text: String,
    next: Cleanup,
    action: CleanupAction,
)
    ensures
        (Cleanup::Reading { name })@ == (CleanupStage::Reading { name: name@ }),
        (Cleanup::Parsing { name })@ == (CleanupStage::Parsing { name: name@ }),
        (Cleanup::Leasing { name, record })@ == (CleanupStage::Leasing {
            name: name@,
            record: record@,
        }),
        (Cleanup::LookingUp { name, record })@ == (CleanupStage::LookingUp {
            name: name@,
            record: record@,
        }),
        (Cleanup::Deleting { name })@ == (CleanupStage::Deleting { name: name@ }),
        CleanupAction::Parse(bytes)@ == CleanupActionView::Parse(bytes@),
        (CleanupAction::TryLease { repo_path: name, pod_name: text })@ == (
        CleanupActionView::TryLease { repo_path: name@, pod_name: text@ }),
        (CleanupAction::LookUpPod { repo_path: name, pod_name: text })@ == (
        CleanupActionView::LookUpPod { repo_path: name@, pod_name: text@ }),
        (CleanupAction::DeleteCreation { host, creation: text })@ == (
        CleanupActionView::DeleteCreation { host: host@, creation: text@ }),
        CleanupEvent::Read(Found::Present(bytes))@ == CleanupEventView::Present(bytes@),
        CleanupEvent::Read(Found::Missing)@ == CleanupEventView::Missing,
        CleanupEvent::Read(Found::Failed(text))@ == CleanupEventView::Unreadable(text@),
        CleanupEvent::Parsed(Ok(record))@ == CleanupEventView::Parsed(record@),
        CleanupEvent::Parsed(Err(text))@ == CleanupEventView::Unparsable(text@),
        CleanupEvent::Leased(true)@ == CleanupEventView::Leased(true),
        CleanupEvent::Leased(false)@ == CleanupEventView::Leased(false),
        CleanupEvent::Pod(Ok(Some(text)))@ == CleanupEventView::Pod(Some(text@)),
        CleanupEvent::Pod(Ok(None))@ == CleanupEventView::Pod(None),
        CleanupEvent::Pod(Err(text))@ == CleanupEventView::LookupFailed(text@),
        CleanupEvent::Deleted(Ok(()))@ == CleanupEventView::Deleted,
        CleanupEvent::Deleted(Err(text))@ == CleanupEventView::DeleteFailed(text@),
        (CleanupStep::Perform { next, action })@ == (CleanupMove::Perform {
            next: next@,
            action: action@,
        }),
        (CleanupStep::Leave { log: Some(text) })@ == (CleanupMove::Leave { log: Some(text@) }),
        (CleanupStep::Leave { log: None })@ == (CleanupMove::Leave { log: None }),
        CleanupStep::Abort(text)@ == CleanupMove::Abort(text@),
        CleanupStep::Unexpected(next)@ == CleanupMove::Unexpected(next@),
{
}

/// Passes are viewed with all that they hold.
pub proof fn law_passes_are_viewed_whole(text: String, cleanup: Cleanup)
    ensures
        PassEvent::Opened(Found::Present(()))@ == PassEventView::Opened,
        PassEvent::Opened(Found::Missing)@ == PassEventView::Missing,
        PassEvent::Opened(Found::Failed(text))@ == PassEventView::NotOpened(text@),
        PassEvent::Entry(Ok(text))@ == PassEventView::Entry(text@),
        PassEvent::Entry(Err(text))@ == PassEventView::NoEntry(text@),
        PassEvent::NoMoreEntries@ == PassEventView::NoMoreEntries,
        PassEvent::Left(Some(text))@ == PassEventView::Left(Some(text@)),
        PassEvent::Left(None)@ == PassEventView::Left(None),
        PassEvent::Aborted(text)@ == PassEventView::Aborted(text@),
        (PassStep::NextEntry { line: Some(text) })@ == (PassMove::NextEntry { line: Some(text@) }),
        (PassStep::NextEntry { line: None })@ == (PassMove::NextEntry { line: None }),
        PassStep::Clean(cleanup)@ == PassMove::Clean(cleanup@),
        PassStep::Finished(Ok(()))@ == PassMove::Finished(Ok(())),
        PassStep::Finished(Err(text))@ == PassMove::Finished(Err(text@)),
{
}

/// A token of any other event than a found pod's is never in the way of a step.
pub proof fn law_events_without_tokens_are_taken(event: CleanupEventView)
    ensures
        !(event is Pod) ==> has_hashable_token(event),
        event == CleanupEventView::Pod(None) ==> has_hashable_token(event),
        event is Pod && event->Pod_0 is Some ==> (has_hashable_token(event) <==> is_hashable(
            event->Pod_0->0,
        )),
{
}

/// Whatever was looked up, the creation is deleted, as the record has it and where
/// the record says, exactly if it is not the one that was looked up.
pub proof fn law_lookups_decide_on_the_deletion(
    name: String,
    record: PendingCreate,
    creation: Option<String>,
    step: CleanupStep,
)
    requires
        call_ensures(looked_up, (name, record, creation), step),
    ensures
        step is Leave <==> creation is Some && creation->0@ == record.creation@,
        step is Leave ==> step->log is None,
        step is Leave || step is Perform,
        step is Perform ==> step->action is DeleteCreation,
        step is Perform ==> step->action->DeleteCreation_host@ == record.host@,
        step is Perform ==> step->action->DeleteCreation_creation@ == record.creation@,
        step is Perform ==> step->next@ == (CleanupStage::Deleting { name: name@ }),
{
}

/// An entry under whose name no record can stand is not entered; any other is, and
/// the first thing that is done for it is to read it.
pub proof fn law_entries_start_with_their_record(name: &str, entered: Option<Cleanup>)
    requires
        call_ensures(Cleanup::enter, (name,), entered),
    ensures
        entered is Some <==> name@.len() == 32 && forall|i: int|
            0 <= i < 32 ==> "0123456789abcdefABCDEF"@.contains(#[trigger] name@[i]),
        entered is Some ==> entered->0 is Reading && entered->0->Reading_name@ == name@,
{
    law_finalized_names_are_hexadecimal(name@);
}

/// A record is parsed from the bytes that were read, its own pod's lease is tried
/// and its own pod is looked up; and while it goes from one to the next, name and
/// record stay what they were.
pub proof fn law_steps_keep_name_and_record(
    stage: Cleanup,
    event: CleanupEvent,
    step: CleanupStep,
)
    requires
        has_hashable_token(event@),
        call_ensures(Cleanup::step, (stage, event), step),
    ensures
        stage is Reading && event is Read && event->Read_0 is Present ==> {
            &&& step is Perform
            &&& step->action is Parse
            &&& step->action->Parse_0@ == event->Read_0->Present_0@
            &&& step->next@ == (CleanupStage::Parsing { name: stage->Reading_name@ })
        },
        stage is Parsing && event is Parsed && event->Parsed_0 is Ok ==> {
            &&& step is Perform
            &&& step->action is TryLease
            &&& step->action->TryLease_repo_path@ == event->Parsed_0->Ok_0.repo_path@
            &&& step->action->TryLease_pod_name@ == event->Parsed_0->Ok_0.pod_name@
            &&& step->next@ == (CleanupStage::Leasing {
                name: stage->Parsing_name@,
                record: event->Parsed_0->Ok_0@,
            })
        },
        stage is Leasing && event is Leased ==> (step is Perform <==> event->Leased_0),
        stage is Leasing && event is Leased && !event->Leased_0 ==> step is Leave && step->log is None,
        stage is Leasing && event is Leased && event->Leased_0 ==> {
            &&& step->action is LookUpPod
            &&& step->action->LookUpPod_repo_path@ == stage->Leasing_record.repo_path@
            &&& step->action->LookUpPod_pod_name@ == stage->Leasing_record.pod_name@
            &&& step->next@ == (CleanupStage::LookingUp {
                name: stage->Leasing_name@,
                record: stage->Leasing_record@,
            })
        },
        stage is Deleting && event is Deleted ==> step is Leave,
        stage is Deleting && event is Deleted ==> (step->log is None <==> event->Deleted_0 is Ok),
        stage is Deleting && event is Deleted && event->Deleted_0 is Err ==> step->log->0@
            == "cleaning up creation "@ + stage->Deleting_name@ + ": "@ + event->Deleted_0->Err_0@,
{
}

/// A pass goes on, cleans up or ends as the event says, and keeps names, lines and
/// causes whole.
pub proof fn law_pass_steps_keep_what_they_hear(event: PassEvent, step: PassStep)
    requires
        call_ensures(pass_step, (event,), step),
    ensures
        event is Entry && event->Entry_0 is Ok && step is Clean ==> step->Clean_0@ == (
        CleanupStage::Reading { name: event->Entry_0->Ok_0@ }),
        step is Clean ==> event is Entry && event->Entry_0 is Ok,
        event is Left ==> step is NextEntry && step->line.deep_view() == event->Left_0.deep_view(),
        step is NextEntry && !(event is Left) ==> step->line is None,
        event is Aborted ==> step is Finished && step->Finished_0 is Err
            && step->Finished_0->Err_0@ == event->Aborted_0@,
        event is Entry && event->Entry_0 is Err ==> step is Finished && step->Finished_0 is Err
            && step->Finished_0->Err_0@ == event->Entry_0->Err_0@,
        event is Opened && event->Opened_0 is Failed ==> step is Finished && step->Finished_0 is Err
            && step->Finished_0->Err_0@ == event->Opened_0->Failed_0@,
        event is NoMoreEntries ==> step is Finished && step->Finished_0 is Ok,
        event is Opened && event->Opened_0 is Missing ==> step is Finished && step->Finished_0 is Ok,
        event is Opened && event->Opened_0 is Present ==> step is NextEntry,
{
}

/// A pass that ended early is logged with its whole cause.
pub proof fn law_failed_passes_are_logged_whole(cause: &str, line: String)
    requires
        call_ensures(pass_failed_text, (cause,), line),
    ensures
        "cleaning up unconfirmed creations: "@.is_prefix_of(line@),
        line@.skip("cleaning up unconfirmed creations: "@.len() as int) == cause@,
{
    let front = "cleaning up unconfirmed creations: "@;
    assert(line@.take(front.len() as int) =~= front);
    assert(line@.skip(front.len() as int) =~= cause@);
}

/// A missing file is nothing, and anything else is what was found or why nothing
/// was.
pub proof fn law_missing_files_are_no_failure<T>(found: Found<T>, looked: Result<Option<T>, String>)
    requires
        call_ensures(Found::<T>::or_nothing, (found,), looked),
    ensures
        looked is Err <==> found is Failed,
        looked is Err ==> looked->Err_0@ == found->Failed_0@,
        looked is Ok ==> (looked->Ok_0 is None <==> found is Missing),
        looked is Ok && looked->Ok_0 is Some ==> looked->Ok_0->0 == found->Present_0,
{
}

/// Whatever is answered to a lookup or a deletion, the entry is left, deleted or
/// ends the pass by that answer alone; and what was not asked for changes nothing.
pub proof fn law_steps_end_as_their_events_say(
    stage: Cleanup,
    event: CleanupEvent,
    step: CleanupStep,
)
    requires
        has_hashable_token(event@),
        call_ensures(Cleanup::step, (stage, event), step),
    ensures
        stage is LookingUp && event is Pod && event->Pod_0 is Ok ==> (step is Leave
            <==> event->Pod_0->Ok_0 is Some && creation_id(event->Pod_0->Ok_0->0@)
            == stage->LookingUp_record.creation@),
        stage is LookingUp && event is Pod && event->Pod_0 is Ok && !(step is Leave) ==> {
            &&& step is Perform
            &&& step->action is DeleteCreation
            &&& step->action->DeleteCreation_host@ == stage->LookingUp_record.host@
            &&& step->action->DeleteCreation_creation@ == stage->LookingUp_record.creation@
            &&& step->next@ == (CleanupStage::Deleting { name: stage->LookingUp_name@ })
        },
        stage is LookingUp && event is Pod && event->Pod_0 is Err ==> step is Abort
            && step->Abort_0@ == event->Pod_0->Err_0@,
        stage is Reading && event is Read && event->Read_0 is Missing ==> step is Leave
            && step->log is None,
        stage is Reading && event is Read && event->Read_0 is Failed ==> step is Abort
            && step->Abort_0@ == event->Read_0->Failed_0@,
        stage is Parsing && event is Parsed && event->Parsed_0 is Err ==> step is Abort
            && step->Abort_0@ == event->Parsed_0->Err_0@,
        step is Unexpected ==> step->Unexpected_0@ == stage@,
        step is Unexpected <==> {
            &&& !(stage is Reading && event is Read)
            &&& !(stage is Parsing && event is Parsed)
            &&& !(stage is Leasing && event is Leased)
            &&& !(stage is LookingUp && event is Pod)
            &&& !(stage is Deleting && event is Deleted)
        },
{
}

/// A deletion is given up after fifteen seconds, and so before the next pass starts
/// wherever passes are half a minute apart.
pub proof fn law_deletions_end_before_the_next_pass(interval: u64)
    requires
        call_ensures(cleanup_interval_millis, (false,), interval),
    ensures
        1000 * DELETE_TIMEOUT_SECS == 15_000,
        1000 * DELETE_TIMEOUT_SECS < interval,
        interval == 30_000,
{
}

} // verus!
