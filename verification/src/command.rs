//! Child processes: what a finished command means, what its output says, and
//! which process group has to be killed.
use vstd::prelude::*;
use vstd::string::*;

use crate::failure::because;
use crate::failure::Failure;
use crate::outside::decode_lossy;
use crate::outside::lossy_text;
use crate::text::law_signs_stand_before_the_magnitude;
use crate::text::number_of;
use crate::text::signed_decimal;
use crate::text::signed_decimal_text;

verus! {

/// A command to run.
#[derive(Debug)]
pub struct CommandLine {
    pub program: String,
    pub args: Vec<String>,
}

/// A [`CommandLine`] with its text as characters.
pub struct CommandView {
    pub program: Seq<char>,
    pub args: Seq<Seq<char>>,
}

impl View for CommandLine {
    type V = CommandView;

    open spec fn view(&self) -> CommandView {
        CommandView { program: self.program@, args: self.args.deep_view() }
    }
}

/// A command that has ended.
#[derive(Debug)]
pub struct Finished {
    /// The exit code, where the command was not ended by a signal.
    pub code: Option<i32>,
    /// The exit status in words.
    pub status: String,
    pub stdout: Vec<u8>,
    pub stderr: Vec<u8>,
}

impl Finished {
    /// Whether the command ended with exit code zero.
    pub open spec fn succeeded(self) -> bool {
        self.code == Some(0i32)
    }

    /// Whether the command ended with exit code zero.
    pub fn success(&self) -> (r: bool)
        ensures
            r == self.succeeded(),
    {
        match self.code {
            Some(code) => code == 0,
            None => false,
        }
    }
}

/// The message for a command that was to succeed and did not.
pub open spec fn command_failure(description: Seq<char>, finished: Finished) -> Seq<char> {
    "$ "@ + description + "\n"@ + lossy_text(finished.stdout@) + lossy_text(finished.stderr@) + "\n"@
        + finished.status@
}

/// The output of a command that was to succeed, or the message that it did not:
/// the command, what it wrote and how it ended.
pub fn success_output(description: &str, finished: Finished) -> (r: Result<Vec<u8>, String>)
    ensures
        if finished.succeeded() {
            r == Ok::<Vec<u8>, String>(finished.stdout)
        } else {
            r is Err && r->Err_0@ == command_failure(description@, finished)
        },
{
    if finished.success() {
        return Ok(finished.stdout);
    }
    let mut message = "$ ".to_owned();
    message.append(description);
    message.append("\n");
    message.append(decode_lossy(finished.stdout.as_slice()).as_str());
    message.append(decode_lossy(finished.stderr.as_slice()).as_str());
    message.append("\n");
    message.append(finished.status.as_str());
    Err(message)
}

/// The process group of a command. It is killed when its owner is dropped,
/// unless the command has completed.
#[derive(Debug)]
pub struct ProcessGroup {
    leader: Option<i32>,
}

/// How an attempt to kill a group ended.
#[derive(Debug)]
pub enum KillOutcome {
    Killed,
    /// The group has no process left.
    NoSuchProcess,
    Failed(String),
}

/// The message for a group that could not be killed.
pub open spec fn kill_failure(leader: int, cause: Seq<char>) -> Seq<char> {
    "failed to kill cancelled command group "@ + signed_decimal(leader) + ": "@ + cause
}

impl ProcessGroup {
    /// The group to kill, by the process that leads it.
    pub closed spec fn view(&self) -> Option<i32> {
        self.leader
    }

    /// The group that a child leads. A child that was waited for already has
    /// no identifier and no group.
    pub fn new(child: Option<u32>) -> (r: ProcessGroup)
        ensures
            r@ == match child {
                Some(pid) => Some(pid as i32),
                None => None,
            },
    {
        ProcessGroup {
            leader: match child {
                Some(pid) => Some(
                    #[verifier::truncate]
                    (pid as i32),
                ),
                None => None,
            },
        }
    }

    /// Notes how the command ended: behind a successful one nothing is left to
    /// be killed, while a failed one may have left children.
    pub fn completed(&mut self, success: bool)
        ensures
            final(self)@ == if success {
                None
            } else {
                old(self)@
            },
    {
        if success {
            self.leader = None;
        }
    }

    /// The group to kill.
    pub fn target(&self) -> (r: Option<i32>)
        ensures
            r == self@,
    {
        self.leader
    }

    /// The message for how the attempt to kill the group of `leader` ended. A
    /// group that is gone already is no failure.
    pub fn kill_report(leader: i32, outcome: KillOutcome) -> (r: Option<String>)
        ensures
            match outcome {
                KillOutcome::Failed(cause) => r is Some && r->0@ == kill_failure(
                    leader as int,
                    cause@,
                ),
                _ => r is None,
            },
    {
        match outcome {
            KillOutcome::Killed | KillOutcome::NoSuchProcess => None,
            KillOutcome::Failed(cause) => {
                let mut message = "failed to kill cancelled command group ".to_owned();
                message.append(signed_decimal_text(leader).as_str());
                message.append(": ");
                message.append(cause.as_str());
                Some(message)
            },
        }
    }
}

/// One of the two streams that a command writes to.
#[derive(Debug, Clone, Copy, PartialEq, Eq, Structural)]
pub enum Source {
    Stdout,
    Stderr,
}

/// A line that a command wrote.
#[derive(Debug)]
pub enum OutputLine {
    Stdout(String),
    Stderr(String),
}

impl OutputLine {
    /// Where the line was written.
    pub open spec fn source(self) -> Source {
        match self {
            OutputLine::Stdout(_) => Source::Stdout,
            OutputLine::Stderr(_) => Source::Stderr,
        }
    }

    /// What the line says.
    pub open spec fn text(self) -> Seq<char> {
        match self {
            OutputLine::Stdout(line) => line@,
            OutputLine::Stderr(line) => line@,
        }
    }
}

/// The failure of a command whose output was to be streamed and that could not
/// be started.
pub fn not_started(cause: String) -> (r: Failure)
    ensures
        r@ == because("starting command"@, cause@),
{
    Failure::new("starting command", cause)
}

/// The output of a running command, collected line by line while each line is
/// passed on as it arrives.
#[derive(Debug)]
pub struct OutputStream {
    stdout_done: bool,
    stderr_done: bool,
    output: String,
}

/// An [`OutputStream`]: which streams have ended, and everything read so far.
pub struct StreamView {
    pub stdout_done: bool,
    pub stderr_done: bool,
    pub output: Seq<char>,
}

/// The stream after `line` arrived from `source`, or after `source` ended.
pub open spec fn stream_after(
    stream: StreamView,
    source: Source,
    line: Option<Seq<char>>,
) -> StreamView {
    match line {
        Some(line) => StreamView { output: stream.output + line + "\n"@, ..stream },
        None => match source {
            Source::Stdout => StreamView { stdout_done: true, ..stream },
            Source::Stderr => StreamView { stderr_done: true, ..stream },
        },
    }
}

/// The message for a streamed command that failed.
pub open spec fn stream_failure(status: Seq<char>, output: Seq<char>) -> Seq<char> {
    "command failed ("@ + status + "):\n"@ + output
}

impl View for OutputStream {
    type V = StreamView;

    closed spec fn view(&self) -> StreamView {
        StreamView {
            stdout_done: self.stdout_done,
            stderr_done: self.stderr_done,
            output: self.output@,
        }
    }
}

impl OutputStream {
    /// The output of a command that was just started.
    pub fn new() -> (r: OutputStream)
        ensures
            r@ == (StreamView {
                stdout_done: false,
                stderr_done: false,
                output: Seq::<char>::empty(),
            }),
    {
        OutputStream { stdout_done: false, stderr_done: false, output: String::new() }
    }

    /// Whether `source` is still to be read.
    pub fn is_open(&self, source: Source) -> (r: bool)
        ensures
            r == match source {
                Source::Stdout => !self@.stdout_done,
                Source::Stderr => !self@.stderr_done,
            },
    {
        match source {
            Source::Stdout => !self.stdout_done,
            Source::Stderr => !self.stderr_done,
        }
    }

    /// Takes the next line of `source`, or notes that `source` has ended, and
    /// returns the line to pass on.
    pub fn arrived(&mut self, source: Source, line: Option<String>) -> (r: Option<OutputLine>)
        ensures
            final(self)@ == stream_after(old(self)@, source, line.deep_view()),
            match line {
                Some(line) => r is Some && r->0.source() == source && r->0.text() == line@,
                None => r is None,
            },
    {
        match line {
            Some(line) => {
                self.output.append(line.as_str());
                self.output.append("\n");
                Some(
                    match source {
                        Source::Stdout => OutputLine::Stdout(line),
                        Source::Stderr => OutputLine::Stderr(line),
                    },
                )
            },
            None => {
                match source {
                    Source::Stdout => {
                        self.stdout_done = true;
                    },
                    Source::Stderr => {
                        self.stderr_done = true;
                    },
                }
                None
            },
        }
    }

    /// What the command comes to, once it has ended with `status`: a failed
    /// one is reported with everything that it wrote.
    pub fn finish(self, success: bool, status: &str) -> (r: Result<(), String>)
        ensures
            r is Ok <==> success,
            r is Err ==> r->Err_0@ == stream_failure(status@, self@.output),
    {
        if success {
            return Ok(());
        }
        let mut message = "command failed (".to_owned();
        message.append(status);
        message.append("):\n");
        message.append(self.output.as_str());
        Err(message)
    }
}

/// The stream after `events`, each a line of a source or the end of one.
pub open spec fn stream_after_all(
    stream: StreamView,
    events: Seq<(Source, Option<Seq<char>>)>,
) -> StreamView
    decreases events.len(),
{
    if events.len() == 0 {
        stream
    } else {
        stream_after_all(
            stream_after(stream, events[0].0, events[0].1),
            events.drop_first(),
        )
    }
}

/// The lines among `events`, each with its line feed, in the order in which
/// they arrived.
pub open spec fn transcript(events: Seq<(Source, Option<Seq<char>>)>) -> Seq<char>
    decreases events.len(),
{
    if events.len() == 0 {
        seq![]
    } else {
        match events[0].1 {
            Some(line) => line + "\n"@ + transcript(events.drop_first()),
            None => transcript(events.drop_first()),
        }
    }
}

/// What is kept of a command's output is the lines of both streams in the order
/// in which they arrived; and a stream is closed exactly if its end was seen.
pub proof fn law_output_is_kept_in_order(
    stream: StreamView,
    events: Seq<(Source, Option<Seq<char>>)>,
)
    ensures
        stream_after_all(stream, events).output == stream.output + transcript(events),
        stream_after_all(stream, events).stdout_done == (stream.stdout_done || events.contains(
            (Source::Stdout, None),
        )),
        stream_after_all(stream, events).stderr_done == (stream.stderr_done || events.contains(
            (Source::Stderr, None),
        )),
    decreases events.len(),
{
    if events.len() == 0 {
        assert(stream.output + transcript(events) =~= stream.output);
    } else {
        let next = stream_after(stream, events[0].0, events[0].1);
        let rest = events.drop_first();
        law_output_is_kept_in_order(next, rest);
        assert(next.output + transcript(rest) =~= stream.output + transcript(events));
        assert forall|event: (Source, Option<Seq<char>>)| #[trigger] events.contains(event) == (
        event == events[0] || rest.contains(event)) by {
            if rest.contains(event) {
                let i = choose|i: int| 0 <= i < rest.len() && rest[i] == event;
                assert(events[i + 1] == event);
            }
            if events.contains(event) && event != events[0] {
                let i = choose|i: int| 0 <= i < events.len() && events[i] == event;
                assert(rest[i - 1] == event);
            }
            assert(events[0] == events[0]);
        }
        let stdout_end: (Source, Option<Seq<char>>) = (Source::Stdout, None);
        let stderr_end: (Source, Option<Seq<char>>) = (Source::Stderr, None);
        assert(events.contains(stdout_end) == (stdout_end == events[0] || rest.contains(
            stdout_end,
        )));
        assert(events.contains(stderr_end) == (stderr_end == events[0] || rest.contains(
            stderr_end,
        )));
    }
}

/// A command has succeeded exactly if it ended by itself with exit code zero.
pub proof fn law_only_exit_code_zero_is_success(finished: Finished)
    ensures
        finished.succeeded() <==> finished.code is Some && finished.code->0 == 0,
{
}

/// The message for a failed command holds the command, all of its output, all of
/// its error output and its exit status, each whole and in that order.
pub proof fn law_failed_commands_are_shown_whole(description: Seq<char>, finished: Finished)
    ensures
        ({
            let message = command_failure(description, finished);
            let start = 2 + description.len() as int;
            let end = message.len() - finished.status@.len();
            &&& message.len() == start + 2 + lossy_text(finished.stdout@).len() + lossy_text(
                finished.stderr@,
            ).len() + finished.status@.len()
            &&& message.take(start) == "$ "@ + description
            &&& message[start] == '\n'
            &&& message.subrange(start + 1, end - 1) == lossy_text(finished.stdout@) + lossy_text(
                finished.stderr@,
            )
            &&& message[end - 1] == '\n'
            &&& message.skip(end) == finished.status@
        }),
{
    reveal_strlit("$ ");
    reveal_strlit("\n");
    let message = command_failure(description, finished);
    let start = 2 + description.len() as int;
    let end = message.len() - finished.status@.len();
    assert(message.take(start) =~= "$ "@ + description);
    assert(message.subrange(start + 1, end - 1) =~= lossy_text(finished.stdout@) + lossy_text(
        finished.stderr@,
    ));
    assert(message.skip(end) =~= finished.status@);
}

/// The message for a group that could not be killed names its leader by a number
/// that stands for it, and ends with the whole cause.
pub proof fn law_kill_failures_name_the_group(leader: int, cause: Seq<char>)
    ensures
        ({
            let message = kill_failure(leader, cause);
            let front = "failed to kill cancelled command group "@;
            let digits = message.subrange(
                front.len() as int,
                message.len() - cause.len() - 2,
            );
            &&& front.is_prefix_of(message)
            &&& message.skip(message.len() - cause.len() - 2) == ": "@ + cause
            &&& leader >= 0 ==> number_of(digits) == leader
            &&& leader < 0 ==> digits[0] == '-' && number_of(digits.drop_first()) == -leader
        }),
{
    reveal_strlit(": ");
    let message = kill_failure(leader, cause);
    let front = "failed to kill cancelled command group "@;
    law_signs_stand_before_the_magnitude(leader);
    assert(message.take(front.len() as int) =~= front);
    assert(message.skip(message.len() - cause.len() - 2) =~= ": "@ + cause);
    assert(message.subrange(front.len() as int, message.len() - cause.len() - 2)
        =~= signed_decimal(leader));
}

/// The message for a streamed command that failed ends with everything that the
/// command wrote, behind its whole exit status.
pub proof fn law_failed_streams_are_shown_whole(status: Seq<char>, output: Seq<char>)
    ensures
        ({
            let message = stream_failure(status, output);
            let front = "command failed ("@;
            &&& message.len() == front.len() + status.len() + 3 + output.len()
            &&& message.take(front.len() + status.len() as int) == front + status
            &&& message.skip(front.len() + status.len() as int) == "):\n"@ + output
        }),
{
    reveal_strlit("):\n");
    let message = stream_failure(status, output);
    let front = "command failed ("@;
    assert(message.take(front.len() + status.len() as int) =~= front + status);
    assert(message.skip(front.len() + status.len() as int) =~= "):\n"@ + output);
}

/// A line that is passed on says where it was written and holds the whole line,
/// and one line adds exactly itself and a line feed to what is kept, whichever
/// stream it came from; an end adds nothing and closes its own stream only.
pub proof fn law_lines_are_passed_on_whole(
    text: String,
    stream: StreamView,
    source: Source,
    line: Seq<char>,
)
    ensures
        OutputLine::Stdout(text).source() == Source::Stdout,
        OutputLine::Stderr(text).source() == Source::Stderr,
        OutputLine::Stdout(text).text() == text@,
        OutputLine::Stderr(text).text() == text@,
        stream_after(stream, source, Some(line)).output == stream.output + line.push('\n'),
        stream_after(stream, source, Some(line)).stdout_done == stream.stdout_done,
        stream_after(stream, source, Some(line)).stderr_done == stream.stderr_done,
        stream_after(stream, source, None).output == stream.output,
        stream_after(stream, source, None).stdout_done == (stream.stdout_done || source
            == Source::Stdout),
        stream_after(stream, source, None).stderr_done == (stream.stderr_done || source
            == Source::Stderr),
{
    reveal_strlit("\n");
    assert(stream.output + line + "\n"@ =~= stream.output + line.push('\n'));
}

/// Commands are viewed with all that they hold.
pub proof fn law_commands_are_viewed_whole(command: CommandLine)
    ensures
        command@.program == command.program@,
        command@.args.len() == command.args@.len(),
        forall|i: int|
            0 <= i < command.args@.len() ==> #[trigger] command@.args[i] == command.args@[i]@,
{
}

/// A command that was to succeed gives its output, byte for byte, exactly if it
/// ended with exit code zero; else the message holds the command, all that it wrote
/// and how it ended.
pub proof fn law_output_is_given_on_success(
    description: &str,
    finished: Finished,
    output: Result<Vec<u8>, String>,
)
    requires
        call_ensures(success_output, (description, finished), output),
    ensures
        output is Ok <==> finished.code is Some && finished.code->0 == 0,
        output is Ok ==> output->Ok_0@ == finished.stdout@,
        output is Err ==> output->Err_0@ == "$ "@ + description@ + "\n"@ + lossy_text(
            finished.stdout@,
        ) + lossy_text(finished.stderr@) + "\n"@ + finished.status@,
{
}

/// The group to kill is that of the child, unless the command has completed
/// successfully: then nothing is killed, while a failed command leaves its group to
/// be killed.
pub proof fn law_groups_are_killed_unless_completed(
    child: Option<u32>,
    started: ProcessGroup,
    group: &mut ProcessGroup,
    success: bool,
    target: Option<i32>,
)
    requires
        call_ensures(ProcessGroup::new, (child,), started),
        *old(group) == started,
        call_ensures(ProcessGroup::completed, (group, success), ()),
        call_ensures(ProcessGroup::target, (&*final(group),), target),
    ensures
        success ==> target is None,
        !success ==> (target is None <==> child is None),
        !success && child is Some && child->0 <= i32::MAX ==> target->0 == child->0,
{
}

/// Only a group that could not be killed is told of, with its leader and the whole
/// cause; one that is gone already is no failure.
pub proof fn law_only_failed_kills_are_told(
    leader: i32,
    outcome: KillOutcome,
    report: Option<String>,
)
    requires
        call_ensures(ProcessGroup::kill_report, (leader, outcome), report),
    ensures
        report is Some <==> outcome is Failed,
        report is Some ==> report->0@ == "failed to kill cancelled command group "@
            + signed_decimal(leader as int) + ": "@ + outcome->Failed_0@,
{
}

/// A command that could not be started is told with the whole cause.
pub proof fn law_unstarted_commands_are_told(cause: String, failure: Failure)
    requires
        call_ensures(not_started, (cause,), failure),
    ensures
        failure@.message == "starting command"@,
        failure@.cause == Some(cause@),
{
}

/// A line that arrives is passed on whole under its source and kept with a line
/// feed behind all that was kept before; an end passes nothing on and keeps nothing.
pub proof fn law_arriving_lines_are_kept_and_passed_on(
    stream: &mut OutputStream,
    source: Source,
    line: Option<String>,
    passed: Option<OutputLine>,
)
    requires
        call_ensures(OutputStream::arrived, (stream, source, line), passed),
    ensures
        passed is Some <==> line is Some,
        passed is Some ==> match source {
            Source::Stdout => passed->0 is Stdout && passed->0->Stdout_0@ == line->0@,
            Source::Stderr => passed->0 is Stderr && passed->0->Stderr_0@ == line->0@,
        },
        line is Some ==> final(stream)@.output == old(stream)@.output + line->0@.push('\n'),
        line is None ==> final(stream)@.output == old(stream)@.output,
        final(stream)@.stdout_done == (old(stream)@.stdout_done || line is None && source
            == Source::Stdout),
        final(stream)@.stderr_done == (old(stream)@.stderr_done || line is None && source
            == Source::Stderr),
{
    if line is Some {
        law_lines_are_passed_on_whole(line->0, old(stream)@, source, line->0@);
    } else {
        law_lines_are_passed_on_whole(arbitrary(), old(stream)@, source, seq![]);
    }
}

/// A streamed command succeeds exactly if it did, and a failed one is told with its
/// status and all that was kept of its output. A source is read exactly until its
/// end was seen.
pub proof fn law_streams_end_with_all_that_was_kept(
    stream: OutputStream,
    success: bool,
    status: &str,
    result: Result<(), String>,
    source: Source,
    open: bool,
)
    requires
        call_ensures(OutputStream::finish, (stream, success, status), result),
        call_ensures(OutputStream::is_open, (&stream, source), open),
    ensures
        result is Ok <==> success,
        result is Err ==> result->Err_0@ == "command failed ("@ + status@ + "):\n"@
            + stream@.output,
        open <==> match source {
            Source::Stdout => !stream@.stdout_done,
            Source::Stderr => !stream@.stderr_done,
        },
{
}

} // verus!
