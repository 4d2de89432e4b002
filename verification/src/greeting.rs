//! The readiness greeting at the start of the container server's event stream.
//!
//! The server sends `progress` events while the container starts, interleaved
//! with heartbeats, and one `state` event once start-up is over. A
//! [`Greeting`] says where the reader of that stream stands; [`Greeting::step`]
//! takes what the next read returned and says what to do next. The reader
//! itself, which waits on the network, only performs the reads.
use vstd::prelude::*;
use vstd::string::*;

use crate::failure::because;
use crate::failure::plainly;
use crate::failure::Failure;
use crate::failure::FailureView;
use crate::outside::find_json_member;
use crate::outside::json_member;
use crate::outside::JsonMember;
use crate::outside::JsonMemberView;
use crate::text::contains_text;
use crate::text::law_prefix_and_rest_make_the_text;
use crate::text::law_trimming_undoes_padding;
use crate::text::same_text;
use crate::text::strip_prefix;
use crate::text::stripped_prefix;
use crate::text::trim;
use crate::text::trimmed;
use crate::text::white_space;

verus! {

/// Where the reader of the event stream stands.
#[derive(Debug)]
pub enum Greeting {
    /// Between two events.
    Between,
    /// At the data line of the `state` event.
    StateData,
    /// At the blank line behind the `state` event, whose data line is known.
    StateSeparator { data: String },
    /// At the data line of a `progress` event.
    ProgressData,
    /// At the blank line behind a `progress` event, whose data line is known.
    ProgressSeparator { data: String },
}

/// Why the wait for the greeting ended without one.
#[derive(Debug)]
pub enum GreetingError {
    /// A read failed; `context` says which, `cause` says how.
    Read { context: &'static str, cause: String },
    /// The stream ended between two events.
    Closed,
    /// The data line of the `state` event does not start with `data: `.
    Malformed,
    /// The data of the `state` event is not JSON, for this cause.
    Parse(String),
}

/// What to do after a read.
#[derive(Debug)]
pub enum GreetingStep {
    /// Report `progress`, if there is any, and read another line.
    ReadOn { next: Greeting, progress: Option<String> },
    /// The greeting is over. It carries a lifecycle error or, with `None`,
    /// says that the container is ready.
    Done(Result<Option<String>, GreetingError>),
}

/// A [`Greeting`] with its text as characters.
pub enum Stage {
    Between,
    StateData,
    StateSeparator(Seq<char>),
    ProgressData,
    ProgressSeparator(Seq<char>),
}

/// How the wait for the greeting ends.
pub enum Outcome {
    Ready,
    LifecycleError(Seq<char>),
    ReadFailed { context: Seq<char>, cause: Seq<char> },
    Closed,
    Malformed,
    NotJson(Seq<char>),
}

/// A [`GreetingStep`] with its text as characters.
pub enum Move {
    ReadOn { next: Stage, progress: Option<Seq<char>> },
    Done(Outcome),
}

impl View for Greeting {
    type V = Stage;

    open spec fn view(&self) -> Stage {
        match self {
            Greeting::Between => Stage::Between,
            Greeting::StateData => Stage::StateData,
            Greeting::StateSeparator { data } => Stage::StateSeparator(data@),
            Greeting::ProgressData => Stage::ProgressData,
            Greeting::ProgressSeparator { data } => Stage::ProgressSeparator(data@),
        }
    }
}

/// The outcome that a finished greeting stands for.
pub open spec fn outcome_of(result: Result<Option<String>, GreetingError>) -> Outcome {
    match result {
        Ok(None) => Outcome::Ready,
        Ok(Some(error)) => Outcome::LifecycleError(error@),
        Err(GreetingError::Read { context, cause }) => Outcome::ReadFailed {
            context: context@,
            cause: cause@,
        },
        Err(GreetingError::Closed) => Outcome::Closed,
        Err(GreetingError::Malformed) => Outcome::Malformed,
        Err(GreetingError::Parse(cause)) => Outcome::NotJson(cause@),
    }
}

impl View for GreetingStep {
    type V = Move;

    open spec fn view(&self) -> Move {
        match self {
            GreetingStep::ReadOn { next, progress } => Move::ReadOn {
                next: next@,
                progress: progress.deep_view(),
            },
            GreetingStep::Done(result) => Move::Done(outcome_of(*result)),
        }
    }
}

/// What a read at `stage` is reading, for the message of a failed read.
pub open spec fn read_context(stage: Stage) -> Seq<char> {
    match stage {
        Stage::Between => "reading event stream"@,
        Stage::StateData => "reading state event data"@,
        Stage::StateSeparator(_) => "reading state event separator"@,
        Stage::ProgressData => "reading progress event data"@,
        Stage::ProgressSeparator(_) => "reading progress event separator"@,
    }
}

/// The data that a data line carries behind `data: `.
pub open spec fn event_data(line: Seq<char>) -> Option<Seq<char>> {
    stripped_prefix(trimmed(line), "data: "@)
}

/// What the lookup of the lifecycle error in the state data says: an error is a
/// text, and anything else in its place, or nothing, says that there is none.
pub open spec fn state_outcome(lookup: Result<JsonMemberView, Seq<char>>) -> Outcome {
    match lookup {
        Ok(JsonMemberView::Text(error)) => Outcome::LifecycleError(error),
        Ok(JsonMemberView::Absent) => Outcome::Ready,
        Ok(JsonMemberView::Other) => Outcome::Ready,
        Err(cause) => Outcome::NotJson(cause),
    }
}

/// What the data line of the `state` event says.
pub open spec fn state_line_outcome(line: Seq<char>) -> Outcome {
    match event_data(line) {
        None => Outcome::Malformed,
        Some(json) => state_outcome(json_member(json, "lifecycle_error"@)),
    }
}

/// What follows from a read at `stage` that returned `line`, or failed with a
/// cause. An empty line is the end of the stream: every other line has at
/// least its line feed.
pub open spec fn greeting_move(stage: Stage, read: Result<Seq<char>, Seq<char>>) -> Move {
    match read {
        Err(cause) => Move::Done(Outcome::ReadFailed { context: read_context(stage), cause }),
        Ok(line) => match stage {
            Stage::Between => if line.len() == 0 {
                Move::Done(Outcome::Closed)
            } else if trimmed(line) == "event: state"@ {
                Move::ReadOn { next: Stage::StateData, progress: None }
            } else if trimmed(line) == "event: progress"@ {
                Move::ReadOn { next: Stage::ProgressData, progress: None }
            } else {
                Move::ReadOn { next: Stage::Between, progress: None }
            },
            Stage::StateData => Move::ReadOn { next: Stage::StateSeparator(line), progress: None },
            Stage::StateSeparator(data) => Move::Done(state_line_outcome(data)),
            Stage::ProgressData => Move::ReadOn {
                next: Stage::ProgressSeparator(line),
                progress: None,
            },
            Stage::ProgressSeparator(data) => Move::ReadOn {
                next: Stage::Between,
                progress: event_data(data),
            },
        },
    }
}

/// The outcome of a read, with its text as characters.
pub open spec fn read_view(read: Result<String, String>) -> Result<Seq<char>, Seq<char>> {
    match read {
        Ok(line) => Ok(line@),
        Err(cause) => Err(cause@),
    }
}

/// What the result of the lookup of the lifecycle error says.
pub fn state_result(lookup: Result<JsonMember, String>) -> (r: Result<
    Option<String>,
    GreetingError,
>)
    ensures
        outcome_of(r) == state_outcome(
            match lookup {
                Ok(member) => Ok(member@),
                Err(cause) => Err(cause@),
            },
        ),
{
    match lookup {
        Ok(JsonMember::Text(error)) => Ok(Some(error)),
        Ok(JsonMember::Absent) => Ok(None),
        Ok(JsonMember::Other) => Ok(None),
        Err(cause) => Err(GreetingError::Parse(cause)),
    }
}

/// What the data line of the `state` event says.
pub fn read_state_line(line: &str) -> (r: Result<Option<String>, GreetingError>)
    ensures
        outcome_of(r) == state_line_outcome(line@),
{
    match strip_prefix(trim(line), "data: ") {
        Some(json) => state_result(find_json_member(json, "lifecycle_error")),
        None => Err(GreetingError::Malformed),
    }
}

impl Greeting {
    /// The reader at the start of the stream.
    pub fn new() -> (r: Greeting)
        ensures
            r@ == Stage::Between,
    {
        Greeting::Between
    }

    /// What a read at this point is reading.
    pub fn context(&self) -> (r: &'static str)
        ensures
            r@ == read_context(self@),
    {
        match self {
            Greeting::Between => "reading event stream",
            Greeting::StateData => "reading state event data",
            Greeting::StateSeparator { .. } => "reading state event separator",
            Greeting::ProgressData => "reading progress event data",
            Greeting::ProgressSeparator { .. } => "reading progress event separator",
        }
    }

    /// What follows from the line that was read, or from the cause for which
    /// it could not be read. An empty line is the end of the stream.
    pub fn step(self, read: Result<String, String>) -> (r: GreetingStep)
        ensures
            r@ == greeting_move(self@, read_view(read)),
    {
        let line = match read {
            Ok(line) => line,
            Err(cause) => {
                return GreetingStep::Done(
                    Err(GreetingError::Read { context: self.context(), cause }),
                );
            },
        };
        match self {
            Greeting::Between => {
                if line.as_str().is_empty() {
                    return GreetingStep::Done(Err(GreetingError::Closed));
                }
                let event = trim(line.as_str());
                let next = if same_text(event, "event: state") {
                    Greeting::StateData
                } else if same_text(event, "event: progress") {
                    Greeting::ProgressData
                } else {
                    Greeting::Between
                };
                GreetingStep::ReadOn { next, progress: None }
            },
            Greeting::StateData => GreetingStep::ReadOn {
                next: Greeting::StateSeparator { data: line },
                progress: None,
            },
            Greeting::StateSeparator { data } => GreetingStep::Done(
                read_state_line(data.as_str()),
            ),
            Greeting::ProgressData => GreetingStep::ReadOn {
                next: Greeting::ProgressSeparator { data: line },
                progress: None,
            },
            Greeting::ProgressSeparator { data } => {
                let progress = match strip_prefix(trim(data.as_str()), "data: ") {
                    Some(message) => Some(message.to_owned()),
                    None => None,
                };
                GreetingStep::ReadOn { next: Greeting::Between, progress }
            },
        }
    }
}

/// The failure that an outcome stands for, unless the container is ready.
pub open spec fn failure_of(outcome: Outcome) -> Option<FailureView> {
    match outcome {
        Outcome::Ready => None,
        Outcome::LifecycleError(error) => Some(plainly(error)),
        Outcome::ReadFailed { context, cause } => Some(because(context, cause)),
        Outcome::Closed => Some(plainly("event stream closed before state event"@)),
        Outcome::Malformed => Some(plainly("malformed state event"@)),
        Outcome::NotJson(cause) => Some(because("parsing state event"@, cause)),
    }
}

impl GreetingError {
    /// What failed, and why.
    pub fn failure(self) -> (r: Failure)
        ensures
            Some(r@) == failure_of(outcome_of(Err(self))),
    {
        match self {
            GreetingError::Read { context, cause } => Failure::new(context, cause),
            GreetingError::Closed => Failure::plain(
                "event stream closed before state event".to_owned(),
            ),
            GreetingError::Malformed => Failure::plain("malformed state event".to_owned()),
            GreetingError::Parse(cause) => Failure::new("parsing state event", cause),
        }
    }
}

/// Where a reader stands after a number of reads.
pub enum Standing {
    Waiting(Stage),
    Finished(Outcome),
}

/// The progress that a reader at `stage` reports over `reads`, in order, and
/// where it stands behind them. Once finished it looks at no further read.
pub open spec fn greeting_run(stage: Stage, reads: Seq<Result<Seq<char>, Seq<char>>>) -> (
    Seq<Seq<char>>,
    Standing,
)
    decreases reads.len(),
{
    if reads.len() == 0 {
        (seq![], Standing::Waiting(stage))
    } else {
        match greeting_move(stage, reads[0]) {
            Move::Done(outcome) => (seq![], Standing::Finished(outcome)),
            Move::ReadOn { next, progress } => {
                let (later, standing) = greeting_run(next, reads.drop_first());
                match progress {
                    Some(message) => (seq![message] + later, standing),
                    None => (later, standing),
                }
            },
        }
    }
}

/// Reading in two parts is reading the whole: a reader that still waits after
/// `first` goes on with `second` from where it stands, and one that has
/// finished within `first` does not look at `second`.
pub proof fn law_reads_in_parts(
    stage: Stage,
    first: Seq<Result<Seq<char>, Seq<char>>>,
    second: Seq<Result<Seq<char>, Seq<char>>>,
)
    ensures
        match greeting_run(stage, first).1 {
            Standing::Finished(outcome) => greeting_run(stage, first + second) == greeting_run(
                stage,
                first,
            ),
            Standing::Waiting(next) => greeting_run(stage, first + second) == (
                greeting_run(stage, first).0 + greeting_run(next, second).0,
                greeting_run(next, second).1,
            ),
        },
    decreases first.len(),
{
    if first.len() == 0 {
        assert(first + second == second);
        assert(greeting_run(stage, first).0 + greeting_run(stage, second).0 =~= greeting_run(
            stage,
            second,
        ).0);
    } else {
        assert((first + second)[0] == first[0]);
        assert((first + second).drop_first() == first.drop_first() + second);
        match greeting_move(stage, first[0]) {
            Move::Done(_) => {},
            Move::ReadOn { next, progress } => {
                law_reads_in_parts(next, first.drop_first(), second);
                match greeting_run(stage, first).1 {
                    Standing::Finished(_) => {},
                    Standing::Waiting(last) => {
                        assert(greeting_run(stage, first + second).0 =~= greeting_run(
                            stage,
                            first,
                        ).0 + greeting_run(last, second).0);
                    },
                }
            },
        }
    }
}

/// Whether `line` announces neither kind of event, as a heartbeat does.
pub open spec fn is_heartbeat(line: Seq<char>) -> bool {
    &&& line.len() > 0
    &&& trimmed(line) != "event: state"@
    &&& trimmed(line) != "event: progress"@
}

/// Heartbeats, however many, change nothing: a reader between two events
/// reports nothing and still waits for an event.
pub proof fn law_heartbeats_are_ignored(reads: Seq<Result<Seq<char>, Seq<char>>>)
    requires
        forall|i: int| 0 <= i < reads.len() ==> #[trigger] reads[i] is Ok && is_heartbeat(reads[i]->Ok_0),
    ensures
        greeting_run(Stage::Between, reads) == (
            Seq::<Seq<char>>::empty(),
            Standing::Waiting(Stage::Between),
        ),
    decreases reads.len(),
{
    if reads.len() > 0 {
        assert(reads[0] is Ok && is_heartbeat(reads[0]->Ok_0));
        assert forall|i: int| 0 <= i < reads.drop_first().len() implies #[trigger] reads.drop_first()[i] is Ok
            && is_heartbeat(reads.drop_first()[i]->Ok_0) by {
            assert(reads.drop_first()[i] == reads[i + 1]);
        }
        law_heartbeats_are_ignored(reads.drop_first());
    }
}

/// A progress event is reported exactly when its data line starts with
/// `data: `, and leaves the reader between events.
pub proof fn law_progress_is_forwarded(event: Seq<char>, data: Seq<char>, separator: Seq<char>)
    requires
        event.len() > 0,
        trimmed(event) == "event: progress"@,
    ensures
        greeting_run(Stage::Between, seq![Ok(event), Ok(data), Ok(separator)]) == (
            match event_data(data) {
                Some(message) => seq![message],
                None => Seq::<Seq<char>>::empty(),
            },
            Standing::Waiting(Stage::Between),
        ),
{
    let reads = seq![
        Ok::<Seq<char>, Seq<char>>(event),
        Ok::<Seq<char>, Seq<char>>(data),
        Ok::<Seq<char>, Seq<char>>(separator),
    ];
    reveal_strlit("event: progress");
    reveal_strlit("event: state");
    assert("event: progress"@.len() != "event: state"@.len());
    reveal_with_fuel(greeting_run, 4);
    assert(reads.drop_first().drop_first().drop_first().len() == 0);
    assert(greeting_run(Stage::Between, reads).0 =~= match event_data(data) {
        Some(message) => seq![message],
        None => Seq::<Seq<char>>::empty(),
    });
}

/// The state event ends the wait with what its data line says, whatever was
/// read before it as long as the reader then stood between two events, and
/// whatever the stream holds behind it. The progress reported is that of the
/// reads before it.
pub proof fn law_state_event_ends_the_wait(
    before: Seq<Result<Seq<char>, Seq<char>>>,
    event: Seq<char>,
    data: Seq<char>,
    separator: Seq<char>,
    behind: Seq<Result<Seq<char>, Seq<char>>>,
)
    requires
        greeting_run(Stage::Between, before).1 == Standing::Waiting(Stage::Between),
        event.len() > 0,
        trimmed(event) == "event: state"@,
    ensures
        greeting_run(
            Stage::Between,
            before + (seq![Ok(event), Ok(data), Ok(separator)] + behind),
        ) == (
            greeting_run(Stage::Between, before).0,
            Standing::Finished(state_line_outcome(data)),
        ),
{
    let state = seq![
        Ok::<Seq<char>, Seq<char>>(event),
        Ok::<Seq<char>, Seq<char>>(data),
        Ok::<Seq<char>, Seq<char>>(separator),
    ];
    reveal_with_fuel(greeting_run, 4);
    assert(greeting_run(Stage::Between, state) == (
        Seq::<Seq<char>>::empty(),
        Standing::Finished(state_line_outcome(data)),
    ));
    law_reads_in_parts(Stage::Between, state, behind);
    law_reads_in_parts(Stage::Between, before, state + behind);
    assert(greeting_run(Stage::Between, before).0 + Seq::<Seq<char>>::empty() =~= greeting_run(
        Stage::Between,
        before,
    ).0);
}

/// What a stream holds before its `state` event.
pub enum StreamItem {
    /// A line that announces no event.
    Heartbeat(Seq<char>),
    Progress { event: Seq<char>, data: Seq<char>, separator: Seq<char> },
}

/// Whether the lines of `item` say what it is.
pub open spec fn is_item(item: StreamItem) -> bool {
    match item {
        StreamItem::Heartbeat(line) => is_heartbeat(line),
        StreamItem::Progress { event, .. } => event.len() > 0 && trimmed(event)
            == "event: progress"@,
    }
}

/// The reads of `item`.
pub open spec fn item_reads(item: StreamItem) -> Seq<Result<Seq<char>, Seq<char>>> {
    match item {
        StreamItem::Heartbeat(line) => seq![Ok(line)],
        StreamItem::Progress { event, data, separator } => seq![Ok(event), Ok(data), Ok(separator)],
    }
}

/// The progress that `item` carries, if any.
pub open spec fn item_progress(item: StreamItem) -> Seq<Seq<char>> {
    match item {
        StreamItem::Heartbeat(_) => seq![],
        StreamItem::Progress { data, .. } => match event_data(data) {
            Some(message) => seq![message],
            None => seq![],
        },
    }
}

/// The reads of `items`, one item behind the other.
pub open spec fn reads_of(items: Seq<StreamItem>) -> Seq<Result<Seq<char>, Seq<char>>>
    decreases items.len(),
{
    if items.len() == 0 {
        seq![]
    } else {
        item_reads(items[0]) + reads_of(items.drop_first())
    }
}

/// The progress that `items` carry, in order.
pub open spec fn progress_of(items: Seq<StreamItem>) -> Seq<Seq<char>>
    decreases items.len(),
{
    if items.len() == 0 {
        seq![]
    } else {
        item_progress(items[0]) + progress_of(items.drop_first())
    }
}

proof fn lemma_items_are_read(items: Seq<StreamItem>)
    requires
        forall|i: int| 0 <= i < items.len() ==> is_item(#[trigger] items[i]),
    ensures
        greeting_run(Stage::Between, reads_of(items)) == (
            progress_of(items),
            Standing::Waiting(Stage::Between),
        ),
    decreases items.len(),
{
    if items.len() > 0 {
        let rest = items.drop_first();
        assert forall|i: int| 0 <= i < rest.len() implies is_item(#[trigger] rest[i]) by {
            assert(rest[i] == items[i + 1]);
        }
        lemma_items_are_read(rest);
        assert(is_item(items[0]));
        match items[0] {
            StreamItem::Heartbeat(line) => {
                law_heartbeats_are_ignored(item_reads(items[0]));
            },
            StreamItem::Progress { event, data, separator } => {
                law_progress_is_forwarded(event, data, separator);
            },
        }
        assert(greeting_run(Stage::Between, item_reads(items[0])) == (
            item_progress(items[0]),
            Standing::Waiting(Stage::Between),
        ));
        law_reads_in_parts(Stage::Between, item_reads(items[0]), reads_of(rest));
    }
}

/// The progress reported over a whole stream is exactly that of the progress
/// events ahead of the `state` event, in order, and what the wait ends with is
/// what that event says.
pub proof fn law_progress_is_that_ahead_of_the_state(
    items: Seq<StreamItem>,
    event: Seq<char>,
    data: Seq<char>,
    separator: Seq<char>,
    behind: Seq<Result<Seq<char>, Seq<char>>>,
)
    requires
        forall|i: int| 0 <= i < items.len() ==> is_item(#[trigger] items[i]),
        event.len() > 0,
        trimmed(event) == "event: state"@,
    ensures
        greeting_run(
            Stage::Between,
            reads_of(items) + (seq![Ok(event), Ok(data), Ok(separator)] + behind),
        ) == (progress_of(items), Standing::Finished(state_line_outcome(data))),
{
    lemma_items_are_read(items);
    law_state_event_ends_the_wait(reads_of(items), event, data, separator, behind);
}

/// The end of the stream ends the wait wherever the reader stands, after at
/// most three more reads, and never with a greeting that was not sent: between
/// events or within a progress event the stream is closed, and a state event
/// without its data line is malformed.
pub proof fn law_end_of_stream_ends_the_wait(stage: Stage)
    ensures
        ({
            let end = seq![
                Ok::<Seq<char>, Seq<char>>(Seq::empty()),
                Ok::<Seq<char>, Seq<char>>(Seq::empty()),
                Ok::<Seq<char>, Seq<char>>(Seq::empty()),
            ];
            greeting_run(stage, end).1 == Standing::Finished(
                match stage {
                    Stage::Between => Outcome::Closed,
                    Stage::ProgressData => Outcome::Closed,
                    Stage::ProgressSeparator(_) => Outcome::Closed,
                    Stage::StateData => Outcome::Malformed,
                    Stage::StateSeparator(data) => state_line_outcome(data),
                },
            )
        }),
{
    let end = seq![
        Ok::<Seq<char>, Seq<char>>(Seq::empty()),
        Ok::<Seq<char>, Seq<char>>(Seq::empty()),
        Ok::<Seq<char>, Seq<char>>(Seq::empty()),
    ];
    reveal_with_fuel(greeting_run, 4);
    reveal_strlit("data: ");
    assert(trimmed(Seq::empty()).len() == 0);
    assert(event_data(Seq::empty()) is None);
    assert(end.drop_first()[0] == end[1]);
    assert(end.drop_first().drop_first()[0] == end[2]);
}

/// A reader whose stream fails or ends between two events says so in words
/// that name the event stream.
pub proof fn law_lost_stream_is_named(read: Result<Seq<char>, Seq<char>>)
    requires
        read is Err || read->Ok_0.len() == 0,
    ensures
        greeting_move(Stage::Between, read) is Done,
        failure_of(greeting_move(Stage::Between, read)->Done_0) is Some,
        contains_text(
            failure_of(greeting_move(Stage::Between, read)->Done_0)->0.message,
            "event stream"@,
        ),
{
    reveal_strlit("reading event stream");
    reveal_strlit("event stream closed before state event");
    reveal_strlit("event stream");
    assert("reading event stream"@.subrange(8, 8int + "event stream"@.len()) =~= "event stream"@);
    assert("event stream closed before state event"@.subrange(0, 0int + "event stream"@.len())
        =~= "event stream"@);
}

/// A data line carries exactly what stands behind `data: ` once the white space
/// around the line is gone, and a line that does not start so carries nothing.
pub proof fn law_data_stands_behind_its_mark(line: Seq<char>, data: Seq<char>)
    ensures
        event_data(line) == Some(data) <==> trimmed(line) == "data: "@ + data,
{
    law_prefix_and_rest_make_the_text(trimmed(line), "data: "@, data);
}

/// A message is read from its data line as it was sent, whatever white space ends
/// the line.
pub proof fn law_messages_are_read_as_sent(
    before: Seq<char>,
    message: Seq<char>,
    behind: Seq<char>,
)
    requires
        message.len() > 0,
        !white_space(message.last()),
        forall|i: int| 0 <= i < before.len() ==> white_space(#[trigger] before[i]),
        forall|i: int| 0 <= i < behind.len() ==> white_space(#[trigger] behind[i]),
    ensures
        event_data(before + ("data: "@ + message) + behind) == Some(message),
{
    reveal_strlit("data: ");
    let text = "data: "@ + message;
    assert(text[0] == 'd');
    assert(text.last() == message.last());
    law_trimming_undoes_padding(before, text, behind);
    law_data_stands_behind_its_mark(before + text + behind, message);
}

/// Between two events a line leads to the data of a `state` event exactly if it
/// says `event: state`, to that of a `progress` event exactly if it says
/// `event: progress`, both up to white space around, and ends the wait exactly if
/// it is the end of the stream. Nothing is reported for it.
pub proof fn law_events_are_told_by_their_line(line: Seq<char>)
    ensures
        ({
            let step = greeting_move(Stage::Between, Ok(line));
            &&& line.len() == 0 <==> step == Move::Done(Outcome::Closed)
            &&& line.len() == 0 <==> step is Done
            &&& line.len() > 0 ==> step->progress is None
            &&& line.len() > 0 ==> (step->next == Stage::StateData <==> trimmed(line)
                == "event: state"@)
            &&& line.len() > 0 ==> (step->next == Stage::ProgressData <==> trimmed(line)
                == "event: progress"@)
            &&& line.len() > 0 ==> step->next == Stage::StateData || step->next
                == Stage::ProgressData || step->next == Stage::Between
        }),
{
    reveal_strlit("event: progress");
    reveal_strlit("event: state");
    assert("event: progress"@.len() != "event: state"@.len());
}

/// The data line of an event is kept as it was read until the line behind it is
/// there; then a `progress` event is reported with its data, and a `state` event
/// ends the wait.
pub proof fn law_data_lines_are_kept(line: Seq<char>, data: Seq<char>)
    ensures
        greeting_move(Stage::StateData, Ok(line)) == (Move::ReadOn {
            next: Stage::StateSeparator(line),
            progress: None,
        }),
        greeting_move(Stage::ProgressData, Ok(line)) == (Move::ReadOn {
            next: Stage::ProgressSeparator(line),
            progress: None,
        }),
        greeting_move(Stage::ProgressSeparator(data), Ok(line)) is ReadOn,
        greeting_move(Stage::ProgressSeparator(data), Ok(line))->next == Stage::Between,
        forall|message: Seq<char>| #[trigger] ("data: "@ + message) == trimmed(data) ==> greeting_move(
            Stage::ProgressSeparator(data),
            Ok(line),
        )->progress == Some(message),
        !"data: "@.is_prefix_of(trimmed(data)) ==> greeting_move(
            Stage::ProgressSeparator(data),
            Ok(line),
        )->progress is None,
        greeting_move(Stage::StateSeparator(data), Ok(line)) is Done,
{
    assert forall|message: Seq<char>| #[trigger] ("data: "@ + message) == trimmed(data) implies greeting_move(
        Stage::ProgressSeparator(data),
        Ok(line),
    )->progress == Some(message) by {
        law_data_stands_behind_its_mark(data, message);
    }
}

/// What a `state` event says: a text under `lifecycle_error` in its data is the
/// error, whatever the text; anything else there, or nothing, says that the
/// container is ready; data that is not JSON is told with the whole cause; and a
/// data line without its mark is malformed.
pub proof fn law_states_say_what_their_data_says(
    data: Seq<char>,
    json: Seq<char>,
    separator: Seq<char>,
    error: Seq<char>,
)
    requires
        trimmed(data) == "data: "@ + json,
    ensures
        ({
            let said = greeting_move(Stage::StateSeparator(data), Ok(separator));
            let found = json_member(json, "lifecycle_error"@);
            &&& said == Move::Done(Outcome::LifecycleError(error)) <==> found == Ok::<
                JsonMemberView,
                Seq<char>,
            >(JsonMemberView::Text(error))
            &&& said == Move::Done(Outcome::Ready) <==> found == Ok::<JsonMemberView, Seq<char>>(
                JsonMemberView::Absent,
            ) || found == Ok::<JsonMemberView, Seq<char>>(JsonMemberView::Other)
            &&& said == Move::Done(Outcome::NotJson(error)) <==> found == Err::<
                JsonMemberView,
                Seq<char>,
            >(error)
            &&& said != Move::Done(Outcome::Malformed)
        }),
{
    law_data_stands_behind_its_mark(data, json);
}

/// A `state` event is malformed exactly if its data line does not start with its
/// mark.
pub proof fn law_unmarked_states_are_malformed(data: Seq<char>, separator: Seq<char>)
    ensures
        greeting_move(Stage::StateSeparator(data), Ok(separator)) == Move::Done(Outcome::Malformed)
            <==> !"data: "@.is_prefix_of(trimmed(data)),
{
    if "data: "@.is_prefix_of(trimmed(data)) {
        let json = trimmed(data).skip("data: "@.len() as int);
        assert(trimmed(data) =~= "data: "@ + json);
        law_states_say_what_their_data_says(data, json, separator, json);
    }
}

/// A read that fails ends the wait wherever the reader stands, with what was being
/// read and the whole cause.
pub proof fn law_failed_reads_are_told(stage: Stage, cause: Seq<char>)
    ensures
        ({
            let step = greeting_move(stage, Err(cause));
            &&& step is Done
            &&& step->Done_0 is ReadFailed
            &&& step->Done_0->cause == cause
            &&& stage is Between ==> step->Done_0->context == "reading event stream"@
            &&& stage is StateData ==> step->Done_0->context == "reading state event data"@
            &&& stage is StateSeparator ==> step->Done_0->context
                == "reading state event separator"@
            &&& stage is ProgressData ==> step->Done_0->context == "reading progress event data"@
            &&& stage is ProgressSeparator ==> step->Done_0->context
                == "reading progress event separator"@
        }),
{
}

/// Only a container that is ready is no failure; every other outcome is one, with
/// its whole error, context and cause.
pub proof fn law_outcomes_fail_in_their_words(
    outcome: Outcome,
    text: Seq<char>,
    cause: Seq<char>,
)
    ensures
        failure_of(outcome) is None <==> outcome is Ready,
        failure_of(Outcome::LifecycleError(text)) == Some(
            FailureView { message: text, cause: None },
        ),
        failure_of(Outcome::ReadFailed { context: text, cause }) == Some(
            FailureView { message: text, cause: Some(cause) },
        ),
        failure_of(Outcome::Closed) == Some(
            FailureView { message: "event stream closed before state event"@, cause: None },
        ),
        failure_of(Outcome::Malformed) == Some(
            FailureView { message: "malformed state event"@, cause: None },
        ),
        failure_of(Outcome::NotJson(cause)) == Some(
            FailureView { message: "parsing state event"@, cause: Some(cause) },
        ),
{
}

/// Greetings are viewed with all that they hold.
pub proof fn law_greetings_are_viewed_whole(
    text: String,
    context: &'static str,
    next: Greeting,
    result: Result<Option<String>, GreetingError>,
)
    ensures
        Greeting::Between@ == Stage::Between,
        Greeting::StateData@ == Stage::StateData,
        Greeting::ProgressData@ == Stage::ProgressData,
        (Greeting::StateSeparator { data: text })@ == Stage::StateSeparator(text@),
        (Greeting::ProgressSeparator { data: text })@ == Stage::ProgressSeparator(text@),
        (GreetingStep::ReadOn { next, progress: Some(text) })@ == (Move::ReadOn {
            next: next@,
            progress: Some(text@),
        }),
        (GreetingStep::ReadOn { next, progress: None })@ == (Move::ReadOn {
            next: next@,
            progress: None,
        }),
        GreetingStep::Done(result)@ == Move::Done(outcome_of(result)),
        outcome_of(Ok(None)) == Outcome::Ready,
        outcome_of(Ok(Some(text))) == Outcome::LifecycleError(text@),
        outcome_of(Err(GreetingError::Read { context, cause: text })) == (Outcome::ReadFailed {
            context: context@,
            cause: text@,
        }),
        outcome_of(Err(GreetingError::Closed)) == Outcome::Closed,
        outcome_of(Err(GreetingError::Malformed)) == Outcome::Malformed,
        outcome_of(Err(GreetingError::Parse(text))) == Outcome::NotJson(text@),
        read_view(Ok(text)) == Ok::<Seq<char>, Seq<char>>(text@),
        read_view(Err(text)) == Err::<Seq<char>, Seq<char>>(text@),
        JsonMember::Absent@ == JsonMemberView::Absent,
        JsonMember::Text(text)@ == JsonMemberView::Text(text@),
        JsonMember::Other@ == JsonMemberView::Other,
{
}

/// A step reads on with a line kept, reports progress or ends the wait as the line
/// says, and hands on every line, message, error and cause as it is.
pub proof fn law_steps_hand_on_what_was_read(
    greeting: Greeting,
    read: Result<String, String>,
    step: GreetingStep,
)
    requires
        call_ensures(Greeting::step, (greeting, read), step),
    ensures
        step@ == greeting_move(greeting@, read_view(read)),
        read is Err ==> {
            &&& step is Done
            &&& outcome_of(step->Done_0) is ReadFailed
            &&& outcome_of(step->Done_0)->cause == read->Err_0@
        },
        read is Ok && greeting is Between && read->Ok_0@.len() == 0 ==> step is Done
            && outcome_of(step->Done_0) == Outcome::Closed,
        read is Ok && greeting is Between && read->Ok_0@.len() > 0 ==> step is ReadOn
            && step->progress is None,
        read is Ok && greeting is StateData ==> step is ReadOn && step->next@
            == Stage::StateSeparator(read->Ok_0@),
        read is Ok && greeting is ProgressData ==> step is ReadOn && step->next@
            == Stage::ProgressSeparator(read->Ok_0@),
        read is Ok && greeting is ProgressSeparator ==> step is ReadOn && step->next@
            == Stage::Between,
        read is Ok && greeting is ProgressSeparator && step->progress is Some ==> trimmed(
            greeting->ProgressSeparator_data@,
        ) == "data: "@ + step->progress->0@,
        read is Ok && greeting is ProgressSeparator && step->progress is None
            ==> !"data: "@.is_prefix_of(trimmed(greeting->ProgressSeparator_data@)),
        read is Ok && greeting is StateSeparator ==> step is Done,
{
    law_failed_reads_are_told(greeting@, read->Err_0@);
    if read is Ok && greeting is ProgressSeparator {
        let data = greeting->ProgressSeparator_data@;
        law_data_lines_are_kept(read->Ok_0@, data);
        if step->progress is Some {
            law_data_stands_behind_its_mark(data, step->progress->0@);
        } else if "data: "@.is_prefix_of(trimmed(data)) {
            let message = trimmed(data).skip("data: "@.len() as int);
            assert(trimmed(data) =~= "data: "@ + message);
            law_data_stands_behind_its_mark(data, message);
        }
    }
}

/// The failure of a wait holds what was being read and the whole cause, or says
/// that the stream was closed or the event malformed.
pub proof fn law_greeting_failures_keep_their_cause(error: GreetingError, failure: Failure)
    requires
        call_ensures(GreetingError::failure, (error,), failure),
    ensures
        error is Read ==> failure@ == (FailureView {
            message: error->context@,
            cause: Some(error->cause@),
        }),
        error is Closed ==> failure@ == (FailureView {
            message: "event stream closed before state event"@,
            cause: None,
        }),
        error is Malformed ==> failure@ == (FailureView {
            message: "malformed state event"@,
            cause: None,
        }),
        error is Parse ==> failure@ == (FailureView {
            message: "parsing state event"@,
            cause: Some(error->Parse_0@),
        }),
{
}

/// A lookup that found a text is a lifecycle error with that text, one that found
/// anything else is none, and one that failed is told with its whole cause.
pub proof fn law_lookups_become_states(
    lookup: Result<JsonMember, String>,
    state: Result<Option<String>, GreetingError>,
)
    requires
        call_ensures(state_result, (lookup,), state),
    ensures
        lookup is Err ==> outcome_of(state) == Outcome::NotJson(lookup->Err_0@),
        lookup is Ok && lookup->Ok_0 is Text ==> outcome_of(state) == Outcome::LifecycleError(
            lookup->Ok_0->Text_0@,
        ),
        lookup is Ok && !(lookup->Ok_0 is Text) ==> outcome_of(state) == Outcome::Ready,
{
}

} // verus!
