//! A local socket for Podman on SSH hosts.
//!
//! Every connection to the socket is piped through `podman system dial-stdio`,
//! which SSH runs on the host. This module says how the socket is set up, what
//! its accept loop does, which command serves a connection, and when the bridge
//! between a connection and its command comes to an end.
use vstd::prelude::*;
use vstd::string::*;

use crate::command::law_commands_are_viewed_whole;
use crate::command::CommandLine;
use crate::command::CommandView;
use crate::config::ContainerEngine;
use crate::config::Host;
use crate::config::HostView;
use crate::failure::because;
use crate::failure::plainly;
use crate::failure::Failure;
use crate::failure::FailureView;
use crate::paths::join;
use crate::paths::law_paths_are_made_of_directory_and_name;
use crate::paths::path_in;
use crate::text::trim;
use crate::text::trimmed;

verus! {

/// The directory in which the directory of a proxy is made. It is short
/// because the paths of sockets are limited to 104 bytes on some systems.
pub const DIRECTORY_PARENT: &'static str = "/tmp";

/// What the name of a proxy's directory starts with.
pub const DIRECTORY_PREFIX: &'static str = "rp-podman-";

/// The permissions of a proxy's directory: whoever can connect has the whole
/// API of the remote Podman, so only its owner may enter.
pub const DIRECTORY_MODE: u32 = 0o700;

/// The name of the socket in the proxy's directory.
pub const SOCKET_NAME: &'static str = "podman.sock";

/// A proxy, by the path of its socket.
#[derive(Debug)]
pub struct PodmanSshProxy {
    socket_path: String,
}

/// One step towards a proxy that accepts connections.
#[derive(Debug, Clone, Copy, PartialEq, Eq, Structural)]
pub enum StartStep {
    /// Create the directory, with a name of its own.
    CreateDirectory,
    /// Set the permissions of the directory.
    RestrictDirectory,
    /// Bind the socket.
    Bind,
    /// Make the socket one that does not block.
    SetNonblocking,
    /// Hand the socket to the runtime.
    Register,
    /// Start the accept loop.
    Accept,
}

/// The step behind `step`, if there is one.
pub open spec fn start_behind(step: StartStep) -> Option<StartStep> {
    match step {
        StartStep::CreateDirectory => Some(StartStep::RestrictDirectory),
        StartStep::RestrictDirectory => Some(StartStep::Bind),
        StartStep::Bind => Some(StartStep::SetNonblocking),
        StartStep::SetNonblocking => Some(StartStep::Register),
        StartStep::Register => Some(StartStep::Accept),
        StartStep::Accept => None,
    }
}

/// The failure of `step` on the way to the socket at `path`.
pub open spec fn start_failure(step: StartStep, path: Seq<char>, cause: Seq<char>) -> FailureView {
    match step {
        StartStep::CreateDirectory => because("creating podman ssh proxy dir"@, cause),
        StartStep::RestrictDirectory => because("restricting podman ssh proxy dir"@, cause),
        StartStep::Bind => because("binding podman ssh proxy "@ + path, cause),
        StartStep::SetNonblocking => because("configuring podman proxy listener"@, cause),
        _ => plainly(cause),
    }
}

impl StartStep {
    /// What follows once this step has ended: the next step, `None` where the
    /// proxy runs, or the failure. `path` is that of the socket.
    pub fn ended(self, path: &str, outcome: Result<(), String>) -> (r: Result<
        Option<StartStep>,
        Failure,
    >)
        ensures
            match outcome {
                Ok(_) => r == Ok::<Option<StartStep>, Failure>(start_behind(self)),
                Err(cause) => r is Err && r->Err_0@ == start_failure(self, path@, cause@),
            },
    {
        match outcome {
            Ok(_) => Ok(
                match self {
                    StartStep::CreateDirectory => Some(StartStep::RestrictDirectory),
                    StartStep::RestrictDirectory => Some(StartStep::Bind),
                    StartStep::Bind => Some(StartStep::SetNonblocking),
                    StartStep::SetNonblocking => Some(StartStep::Register),
                    StartStep::Register => Some(StartStep::Accept),
                    StartStep::Accept => None,
                },
            ),
            Err(cause) => Err(
                match self {
                    StartStep::CreateDirectory => Failure::new(
                        "creating podman ssh proxy dir",
                        cause,
                    ),
                    StartStep::RestrictDirectory => Failure::new(
                        "restricting podman ssh proxy dir",
                        cause,
                    ),
                    StartStep::Bind => Failure::new(
                        "binding podman ssh proxy ".to_owned().concat(path).as_str(),
                        cause,
                    ),
                    StartStep::SetNonblocking => Failure::new(
                        "configuring podman proxy listener",
                        cause,
                    ),
                    _ => Failure::plain(cause),
                },
            ),
        }
    }
}

/// The steps that are tried from `step` on, when each of them succeeds or fails
/// as `successes` says, in order.
pub open spec fn start_tried_from(step: StartStep, successes: Seq<bool>) -> Seq<StartStep>
    decreases successes.len(),
{
    if successes.len() > 0 && successes[0] && start_behind(step) is Some {
        seq![step] + start_tried_from(start_behind(step)->0, successes.drop_first())
    } else {
        seq![step]
    }
}

/// The socket is bound only once its directory was restricted, so that it can
/// never be reached through a laxer directory.
pub proof fn law_directory_is_restricted_before_the_bind(successes: Seq<bool>, at: int)
    requires
        0 <= at < start_tried_from(StartStep::CreateDirectory, successes).len(),
        start_tried_from(StartStep::CreateDirectory, successes)[at] == StartStep::Bind,
    ensures
        exists|i: int|
            0 <= i < at && i < successes.len() && #[trigger] start_tried_from(
                StartStep::CreateDirectory,
                successes,
            )[i] == StartStep::RestrictDirectory && successes[i],
{
    let tried = start_tried_from(StartStep::CreateDirectory, successes);
    reveal_with_fuel(start_tried_from, 7);
    let second = successes.drop_first();
    assert(successes.len() > 1 ==> second[0] == successes[1]);
    assert(tried[1] == StartStep::RestrictDirectory);
}

/// The SSH destination of a host that needs a proxy.
pub open spec fn proxied_destination(host: HostView) -> Option<Seq<char>> {
    match host {
        HostView::Ssh { ssh_destination, engine: ContainerEngine::Podman } => Some(ssh_destination),
        _ => None,
    }
}

/// Whether the container engine of `host` has been chosen, where it has one to
/// choose.
pub open spec fn is_resolved(host: HostView) -> bool {
    match host {
        HostView::Ssh { ssh_destination, engine } => engine != ContainerEngine::Auto,
        _ => true,
    }
}

impl PodmanSshProxy {
    /// The path of the socket.
    pub closed spec fn view(&self) -> Seq<char> {
        self.socket_path@
    }

    /// The proxy whose socket stands in `directory`. No SSH connection is
    /// opened for it until a client connects.
    pub fn start(directory: &str) -> (r: PodmanSshProxy)
        ensures
            r@ == path_in(directory@, SOCKET_NAME@),
            directory@.len() > 0 && directory@.last() != '/' ==> r@ == directory@
                + "/podman.sock"@,
    {
        proof {
            reveal_strlit("podman.sock");
            reveal_strlit("/podman.sock");
            assert(directory@ + seq!['/'] + SOCKET_NAME@ =~= directory@ + "/podman.sock"@);
        }
        PodmanSshProxy { socket_path: join(directory, SOCKET_NAME) }
    }

    /// The path of the socket.
    pub fn socket_path(&self) -> (r: &str)
        ensures
            r@ == self@,
    {
        self.socket_path.as_str()
    }

    /// The SSH destination to start a proxy for, where `host` is an SSH host
    /// with Podman. Every other host is reached without a proxy.
    pub fn for_host(host: &Host) -> (r: Option<String>)
        requires
            is_resolved(host@),
        ensures
            r is Some <==> proxied_destination(host@) is Some,
            r is Some ==> Some(r->0@) == proxied_destination(host@),
            r is Some <==> *host is Ssh && host->engine == ContainerEngine::Podman,
            r is Some ==> r->0@ == host->ssh_destination@,
    {
        match host {
            Host::Ssh { ssh_destination, engine } => match engine {
                ContainerEngine::Podman => Some(ssh_destination.clone()),
                ContainerEngine::Docker => None,
                ContainerEngine::Auto => None,
            },
            Host::Localhost { .. } => None,
            Host::Kubernetes { .. } => None,
        }
    }
}

/// What the accept loop of a proxy hears of.
#[derive(Debug)]
pub enum ProxyEvent {
    /// The task of a connection has ended; the cause is that of a task that
    /// did not run to its end.
    TaskEnded(Result<(), String>),
    /// Whether a connection could be accepted.
    Accepted(Result<(), String>),
}

/// What the accept loop of a proxy does.
#[derive(Debug)]
pub enum ProxyAction {
    /// Go on, after logging the line if there is one.
    GoOn { log: Option<String> },
    /// Serve the accepted connection in a task of its own, and go on.
    Serve,
    /// Log the reason and end the loop.
    Stop { reason: String },
}

/// What the accept loop does about `event`. A connection that fails costs no
/// other connection; only a socket that cannot accept ends the loop.
pub fn accept_step(event: ProxyEvent) -> (r: ProxyAction)
    ensures
        match event {
            ProxyEvent::TaskEnded(Ok(_)) => r == (ProxyAction::GoOn { log: None }),
            ProxyEvent::TaskEnded(Err(cause)) => r matches ProxyAction::GoOn { log: Some(line) }
                && line@ == "podman proxy task failed: "@ + cause@,
            ProxyEvent::Accepted(Ok(_)) => r == ProxyAction::Serve,
            ProxyEvent::Accepted(Err(cause)) => r matches ProxyAction::Stop { reason } && reason@
                == "podman ssh proxy accept failed: "@ + cause@,
        },
{
    match event {
        ProxyEvent::TaskEnded(Ok(_)) => ProxyAction::GoOn { log: None },
        ProxyEvent::TaskEnded(Err(cause)) => ProxyAction::GoOn {
            log: Some("podman proxy task failed: ".to_owned().concat(cause.as_str())),
        },
        ProxyEvent::Accepted(Ok(_)) => ProxyAction::Serve,
        ProxyEvent::Accepted(Err(cause)) => ProxyAction::Stop {
            reason: "podman ssh proxy accept failed: ".to_owned().concat(cause.as_str()),
        },
    }
}

/// The line to log for a connection to `destination` that failed.
pub fn connection_failed_text(destination: &str, cause: &str) -> (r: String)
    ensures
        r@ == "podman ssh proxy connection to "@ + destination@ + " failed: "@ + cause@,
{
    "podman ssh proxy connection to ".to_owned().concat(destination).concat(" failed: ").concat(
        cause,
    )
}

/// The command that serves one connection: SSH must not ask for a password, and
/// runs the remote end of the bridge.
pub fn serve_command(destination: &str) -> (r: CommandLine)
    ensures
        r@ == (CommandView {
            program: "ssh"@,
            args: seq![
                "-o"@,
                "BatchMode=yes"@,
                destination@,
                "podman"@,
                "system"@,
                "dial-stdio"@,
            ],
        }),
{
    let args = vec![
        "-o".to_owned(),
        "BatchMode=yes".to_owned(),
        destination.to_owned(),
        "podman".to_owned(),
        "system".to_owned(),
        "dial-stdio".to_owned(),
    ];
    let r = CommandLine { program: "ssh".to_owned(), args };
    assert(r@.args =~= seq![
        "-o"@,
        "BatchMode=yes"@,
        destination@,
        "podman"@,
        "system"@,
        "dial-stdio"@,
    ]);
    r
}

/// What a bridge between a connection and its command hears of.
#[derive(Debug)]
pub enum BridgeEvent {
    /// The request was forwarded up to its end, or could not be.
    RequestEnded(Result<(), String>),
    /// The response was forwarded up to its end, the error output was read and
    /// the command has ended; or one of these failed.
    ResponseEnded(Result<RemoteExit, String>),
    /// The client has gone, or cannot be watched.
    Disconnected(Result<(), String>),
}

/// How the command of a bridge ended.
#[derive(Debug)]
pub struct RemoteExit {
    pub success: bool,
    /// The exit status in words.
    pub status: String,
    /// What the command wrote to its error output.
    pub stderr: String,
}

/// What a bridge does.
#[derive(Debug)]
pub enum BridgeStep {
    /// Close the input of the command and wait for the response.
    CloseInput,
    /// The bridge is over, and its command is killed if it still runs.
    Done(Result<(), Failure>),
}

/// The failure of a command that ended unsuccessfully.
pub open spec fn remote_failure(exit: RemoteExit) -> FailureView {
    plainly("ssh podman dial-stdio exited with "@ + exit.status@ + ": "@ + trimmed(exit.stderr@))
}

/// Why a bridge could not be set up.
#[derive(Debug)]
pub enum BridgeFault {
    /// The command could not be started.
    NotSpawned(String),
    /// The command has no input to write to.
    NoStdin,
    /// The command has no output to read.
    NoStdout,
    /// The command has no error output to read.
    NoStderr,
}

/// The failure of a bridge that could not be set up.
pub fn setup_failure(fault: BridgeFault) -> (r: Failure)
    ensures
        r@ == match fault {
            BridgeFault::NotSpawned(cause) => because("spawning ssh podman dial-stdio"@, cause@),
            BridgeFault::NoStdin => plainly("ssh child stdin missing"@),
            BridgeFault::NoStdout => plainly("ssh child stdout missing"@),
            BridgeFault::NoStderr => plainly("ssh child stderr missing"@),
        },
{
    match fault {
        BridgeFault::NotSpawned(cause) => Failure::new("spawning ssh podman dial-stdio", cause),
        BridgeFault::NoStdin => Failure::plain("ssh child stdin missing".to_owned()),
        BridgeFault::NoStdout => Failure::plain("ssh child stdout missing".to_owned()),
        BridgeFault::NoStderr => Failure::plain("ssh child stderr missing".to_owned()),
    }
}

/// A [`BridgeStep`] with its text as characters.
pub enum BridgeMove {
    CloseInput,
    Done(Result<(), FailureView>),
}

impl View for BridgeStep {
    type V = BridgeMove;

    open spec fn view(&self) -> BridgeMove {
        match self {
            BridgeStep::CloseInput => BridgeMove::CloseInput,
            BridgeStep::Done(Ok(_)) => BridgeMove::Done(Ok(())),
            BridgeStep::Done(Err(failure)) => BridgeMove::Done(Err(failure@)),
        }
    }
}

/// What a bridge does about `event`.
pub open spec fn bridge_move(event: BridgeEvent) -> BridgeMove {
    match event {
        BridgeEvent::RequestEnded(Ok(_)) => BridgeMove::CloseInput,
        BridgeEvent::RequestEnded(Err(cause)) => BridgeMove::Done(
            Err(because("forwarding podman request"@, cause@)),
        ),
        BridgeEvent::ResponseEnded(Ok(exit)) => if exit.success {
            BridgeMove::Done(Ok(()))
        } else {
            BridgeMove::Done(Err(remote_failure(exit)))
        },
        BridgeEvent::ResponseEnded(Err(cause)) => BridgeMove::Done(
            Err(because("forwarding podman response"@, cause@)),
        ),
        BridgeEvent::Disconnected(Ok(_)) => BridgeMove::Done(Ok(())),
        BridgeEvent::Disconnected(Err(cause)) => BridgeMove::Done(
            Err(because("watching podman client"@, cause@)),
        ),
    }
}

/// What a bridge does about `event`.
pub fn bridge_step(event: BridgeEvent) -> (r: BridgeStep)
    ensures
        r@ == bridge_move(event),
{
    match event {
        BridgeEvent::RequestEnded(Ok(_)) => BridgeStep::CloseInput,
        BridgeEvent::RequestEnded(Err(cause)) => BridgeStep::Done(
            Err(Failure::new("forwarding podman request", cause)),
        ),
        BridgeEvent::ResponseEnded(Ok(exit)) => {
            if exit.success {
                BridgeStep::Done(Ok(()))
            } else {
                let mut message = "ssh podman dial-stdio exited with ".to_owned();
                message.append(exit.status.as_str());
                message.append(": ");
                message.append(trim(exit.stderr.as_str()));
                BridgeStep::Done(Err(Failure::plain(message)))
            }
        },
        BridgeEvent::ResponseEnded(Err(cause)) => BridgeStep::Done(
            Err(Failure::new("forwarding podman response", cause)),
        ),
        BridgeEvent::Disconnected(Ok(_)) => BridgeStep::Done(Ok(())),
        BridgeEvent::Disconnected(Err(cause)) => BridgeStep::Done(
            Err(Failure::new("watching podman client", cause)),
        ),
    }
}

/// What a bridge came to after `events`, if it is over. It looks at nothing
/// behind the event that ended it.
pub open spec fn bridge_result(events: Seq<BridgeEvent>) -> Option<Result<(), FailureView>>
    decreases events.len(),
{
    if events.len() == 0 {
        None
    } else {
        match bridge_move(events[0]) {
            BridgeMove::CloseInput => bridge_result(events.drop_first()),
            BridgeMove::Done(result) => Some(result),
        }
    }
}

/// Whether `event` is the end of the request and nothing else.
pub open spec fn is_half_close(event: BridgeEvent) -> bool {
    event is RequestEnded && event->RequestEnded_0 is Ok
}

/// The end of the request does not end a bridge, for the client may still need
/// its response: what the bridge comes to is what the events behind it say, and
/// the bridge is over exactly if something else happened.
pub proof fn law_half_closed_bridges_wait(events: Seq<BridgeEvent>)
    ensures
        events.len() > 0 && is_half_close(events[0]) ==> bridge_result(events) == bridge_result(
            events.drop_first(),
        ),
        bridge_result(events) is None <==> forall|i: int|
            0 <= i < events.len() ==> is_half_close(#[trigger] events[i]),
    decreases events.len(),
{
    if events.len() > 0 {
        let rest = events.drop_first();
        law_half_closed_bridges_wait(rest);
        assert forall|i: int| 0 <= i < rest.len() implies #[trigger] rest[i] == events[i + 1] by {}
        if bridge_result(rest) is None && is_half_close(events[0]) {
            assert forall|i: int| 0 <= i < events.len() implies is_half_close(#[trigger] events[i]) by {
                if i > 0 {
                    assert(is_half_close(rest[i - 1]));
                }
            }
        }
    }
}

/// What one poll of a connection says of its client.
#[derive(Debug, Clone, Copy, PartialEq, Eq, Structural)]
pub enum PollVerdict {
    /// The poll itself failed; the operating system knows why.
    PollFailed,
    /// The client has gone.
    Gone,
    /// The client is still there, if only to read its response.
    Present,
}

/// What a poll says that returned `result` and reported the events `reported`,
/// where `hang_up` is the event of a connection that was hung up. The end of
/// the request alone is no hang-up: the client may still need its response.
pub fn poll_verdict(result: i32, reported: i16, hang_up: i16) -> (r: PollVerdict)
    ensures
        r == if result < 0 {
            PollVerdict::PollFailed
        } else if reported & hang_up != 0 {
            PollVerdict::Gone
        } else {
            PollVerdict::Present
        },
{
    if result < 0 {
        PollVerdict::PollFailed
    } else if reported & hang_up != 0 {
        PollVerdict::Gone
    } else {
        PollVerdict::Present
    }
}

/// A step that fails says what was tried, with the whole cause and, where the
/// socket was bound, its whole path; handing the socket on and accepting say the
/// cause alone.
pub proof fn law_failed_starts_are_told(path: Seq<char>, cause: Seq<char>)
    ensures
        start_failure(StartStep::CreateDirectory, path, cause) == (FailureView {
            message: "creating podman ssh proxy dir"@,
            cause: Some(cause),
        }),
        start_failure(StartStep::RestrictDirectory, path, cause) == (FailureView {
            message: "restricting podman ssh proxy dir"@,
            cause: Some(cause),
        }),
        start_failure(StartStep::Bind, path, cause) == (FailureView {
            message: "binding podman ssh proxy "@ + path,
            cause: Some(cause),
        }),
        start_failure(StartStep::SetNonblocking, path, cause) == (FailureView {
            message: "configuring podman proxy listener"@,
            cause: Some(cause),
        }),
        start_failure(StartStep::Register, path, cause) == (FailureView {
            message: cause,
            cause: None,
        }),
        start_failure(StartStep::Accept, path, cause) == (FailureView {
            message: cause,
            cause: None,
        }),
{
}

/// A start whose steps all succeed takes each of them once, in this order, and one
/// that fails at a step has taken those before it.
pub proof fn law_starts_take_every_step(successes: Seq<bool>)
    ensures
        start_tried_from(StartStep::CreateDirectory, successes).is_prefix_of(
            seq![
                StartStep::CreateDirectory,
                StartStep::RestrictDirectory,
                StartStep::Bind,
                StartStep::SetNonblocking,
                StartStep::Register,
                StartStep::Accept,
            ],
        ),
        successes.len() >= 5 && (forall|i: int| 0 <= i < 5 ==> #[trigger] successes[i])
            ==> start_tried_from(StartStep::CreateDirectory, successes).len() == 6,
{
    reveal_with_fuel(start_tried_from, 7);
    let second = successes.drop_first();
    let third = second.drop_first();
    let fourth = third.drop_first();
    let fifth = fourth.drop_first();
    assert(successes.len() > 1 ==> second[0] == successes[1]);
    assert(successes.len() > 2 ==> third[0] == successes[2]);
    assert(successes.len() > 3 ==> fourth[0] == successes[3]);
    assert(successes.len() > 4 ==> fifth[0] == successes[4]);
    let tried = start_tried_from(StartStep::CreateDirectory, successes);
    let all = seq![
        StartStep::CreateDirectory,
        StartStep::RestrictDirectory,
        StartStep::Bind,
        StartStep::SetNonblocking,
        StartStep::Register,
        StartStep::Accept,
    ];
    assert(tried =~= all.take(tried.len() as int));
}

/// A proxy is needed exactly for an SSH host with Podman, to its own destination;
/// and a host is unresolved exactly if it is an SSH host whose engine was not
/// chosen.
pub proof fn law_only_podman_over_ssh_is_proxied(host: HostView, destination: Seq<char>)
    ensures
        proxied_destination(host) == Some(destination) <==> host == (HostView::Ssh {
            ssh_destination: destination,
            engine: ContainerEngine::Podman,
        }),
        is_resolved(host) <==> !(host is Ssh && host->engine == ContainerEngine::Auto),
{
}

/// A command that ended unsuccessfully is told with its whole status and with all
/// that it complained of, without the white space around.
pub proof fn law_remote_failures_tell_status_and_complaint(exit: RemoteExit)
    ensures
        ({
            let front = "ssh podman dial-stdio exited with "@ + exit.status@;
            let told = remote_failure(exit);
            &&& told.cause is None
            &&& front.is_prefix_of(told.message)
            &&& told.message.skip(front.len() as int) == ": "@ + trimmed(exit.stderr@)
        }),
{
    let front = "ssh podman dial-stdio exited with "@ + exit.status@;
    let told = remote_failure(exit);
    assert(told.message.take(front.len() as int) =~= front);
    assert(told.message.skip(front.len() as int) =~= ": "@ + trimmed(exit.stderr@));
}

/// A bridge ends well exactly if the client has gone or the command has ended
/// successfully behind the whole response; it waits exactly behind the end of the
/// request; and whatever fails is told with the whole cause.
pub proof fn law_bridges_end_as_their_events_say(event: BridgeEvent)
    ensures
        bridge_move(event) == BridgeMove::CloseInput <==> event is RequestEnded
            && event->RequestEnded_0 is Ok,
        bridge_move(event) == BridgeMove::Done(Ok(())) <==> {
            ||| event is Disconnected && event->Disconnected_0 is Ok
            ||| event is ResponseEnded && event->ResponseEnded_0 is Ok
                && event->ResponseEnded_0->Ok_0.success
        },
        event is RequestEnded && event->RequestEnded_0 is Err ==> bridge_move(event)
            == BridgeMove::Done(
            Err(
                FailureView {
                    message: "forwarding podman request"@,
                    cause: Some(event->RequestEnded_0->Err_0@),
                },
            ),
        ),
        event is ResponseEnded && event->ResponseEnded_0 is Err ==> bridge_move(event)
            == BridgeMove::Done(
            Err(
                FailureView {
                    message: "forwarding podman response"@,
                    cause: Some(event->ResponseEnded_0->Err_0@),
                },
            ),
        ),
        event is ResponseEnded && event->ResponseEnded_0 is Ok
            && !event->ResponseEnded_0->Ok_0.success ==> bridge_move(event) == BridgeMove::Done(
            Err(remote_failure(event->ResponseEnded_0->Ok_0)),
        ),
        event is Disconnected && event->Disconnected_0 is Err ==> bridge_move(event)
            == BridgeMove::Done(
            Err(
                FailureView {
                    message: "watching podman client"@,
                    cause: Some(event->Disconnected_0->Err_0@),
                },
            ),
        ),
{
}

/// The steps of bridges are viewed with all that they hold.
pub proof fn law_bridge_steps_are_viewed_whole(failure: Failure)
    ensures
        BridgeStep::CloseInput@ == BridgeMove::CloseInput,
        BridgeStep::Done(Ok(()))@ == BridgeMove::Done(Ok(())),
        BridgeStep::Done(Err(failure))@ == BridgeMove::Done(Err(failure@)),
{
}

/// A step goes on exactly if it succeeded; the last one is to accept. A step that
/// failed keeps the whole cause.
pub proof fn law_start_steps_go_on_when_they_succeed(
    step: StartStep,
    path: &str,
    outcome: Result<(), String>,
    next: Result<Option<StartStep>, Failure>,
)
    requires
        call_ensures(StartStep::ended, (step, path, outcome), next),
    ensures
        next is Ok <==> outcome is Ok,
        outcome is Ok ==> (next->Ok_0 is None <==> step == StartStep::Accept),
        outcome is Err ==> next->Err_0@.message == outcome->Err_0@ || next->Err_0@.cause == Some(
            outcome->Err_0@,
        ),
        outcome is Err && step == StartStep::Bind ==> next->Err_0@.message
            == "binding podman ssh proxy "@ + path@,
{
}

/// The accept loop ends exactly if a connection cannot be accepted, serves exactly
/// what it accepts, and logs every cause whole.
pub proof fn law_only_the_socket_ends_the_loop(event: ProxyEvent, action: ProxyAction)
    requires
        call_ensures(accept_step, (event,), action),
    ensures
        action is Serve <==> event is Accepted && event->Accepted_0 is Ok,
        action is Stop <==> event is Accepted && event->Accepted_0 is Err,
        action is Stop ==> action->reason@ == "podman ssh proxy accept failed: "@
            + event->Accepted_0->Err_0@,
        action is GoOn ==> (action->log is None <==> event->TaskEnded_0 is Ok),
        action is GoOn && action->log is Some ==> action->log->0@ == "podman proxy task failed: "@
            + event->TaskEnded_0->Err_0@,
{
}

/// A connection that failed is logged with its whole destination and the whole
/// cause.
pub proof fn law_failed_connections_are_logged_whole(
    destination: &str,
    cause: &str,
    line: String,
)
    requires
        call_ensures(connection_failed_text, (destination, cause), line),
    ensures
        ("podman ssh proxy connection to "@ + destination@).is_prefix_of(line@),
        line@.skip(("podman ssh proxy connection to "@ + destination@).len() as int) == " failed: "@
            + cause@,
{
    let front = "podman ssh proxy connection to "@ + destination@;
    assert(line@.take(front.len() as int) =~= front);
    assert(line@.skip(front.len() as int) =~= " failed: "@ + cause@);
}

/// The command of a connection goes to its destination, as one word, and never
/// asks for a password.
pub proof fn law_connections_go_to_their_destination(destination: &str, command: CommandLine)
    requires
        call_ensures(serve_command, (destination,), command),
    ensures
        command.program@ == "ssh"@,
        command.args@.len() == 6,
        command.args@[0]@ == "-o"@,
        command.args@[1]@ == "BatchMode=yes"@,
        command.args@[2]@ == destination@,
        command.args@[3]@ == "podman"@,
        command.args@[4]@ == "system"@,
        command.args@[5]@ == "dial-stdio"@,
{
    law_commands_are_viewed_whole(command);
    let args = command@.args;
    assert(args.len() == 6);
    assert(args[0] == command.args@[0]@);
    assert(args[1] == command.args@[1]@);
    assert(args[2] == command.args@[2]@);
    assert(args[3] == command.args@[3]@);
    assert(args[4] == command.args@[4]@);
    assert(args[5] == command.args@[5]@);
}

/// A bridge that could not be set up says what is missing, with the whole cause of
/// a command that could not be started.
pub proof fn law_failed_setups_are_told(fault: BridgeFault, failure: Failure)
    requires
        call_ensures(setup_failure, (fault,), failure),
    ensures
        failure@.cause is Some <==> fault is NotSpawned,
        fault is NotSpawned ==> failure@.message == "spawning ssh podman dial-stdio"@
            && failure@.cause == Some(fault->NotSpawned_0@),
        fault is NoStdin ==> failure@.message == "ssh child stdin missing"@,
        fault is NoStdout ==> failure@.message == "ssh child stdout missing"@,
        fault is NoStderr ==> failure@.message == "ssh child stderr missing"@,
{
}

/// A poll that failed says nothing of the client; else the client has gone exactly
/// if the hang-up is among the events reported.
pub proof fn law_only_a_hang_up_is_a_departure(
    result: i32,
    reported: i16,
    hang_up: i16,
    verdict: PollVerdict,
)
    requires
        call_ensures(poll_verdict, (result, reported, hang_up), verdict),
    ensures
        verdict == PollVerdict::PollFailed <==> result < 0,
        verdict == PollVerdict::Gone <==> result >= 0 && reported & hang_up != 0,
        verdict == PollVerdict::Present <==> result >= 0 && reported & hang_up == 0,
{
}

/// The socket of a proxy stands in its directory, under its own name, and is where
/// it is said to be.
pub proof fn law_sockets_stand_in_their_directory(
    directory: &str,
    proxy: PodmanSshProxy,
    path: &str,
)
    requires
        call_ensures(PodmanSshProxy::start, (directory,), proxy),
        call_ensures(PodmanSshProxy::socket_path, (&proxy,), path),
    ensures
        directory@.len() > 0 && directory@.last() != '/' ==> path@ == directory@ + "/podman.sock"@,
        directory@.is_prefix_of(path@),
{
    law_paths_are_made_of_directory_and_name(directory@, SOCKET_NAME@);
}

/// A bridge waits behind the end of the request and ends with everything else, with
/// the whole cause where something failed.
pub proof fn law_bridge_steps_keep_their_cause(event: BridgeEvent, step: BridgeStep)
    requires
        call_ensures(bridge_step, (event,), step),
    ensures
        step is CloseInput <==> event is RequestEnded && event->RequestEnded_0 is Ok,
        event is Disconnected && event->Disconnected_0 is Ok ==> step->Done_0 is Ok,
        event is Disconnected && event->Disconnected_0 is Err ==> step->Done_0 is Err
            && step->Done_0->Err_0@.cause == Some(event->Disconnected_0->Err_0@),
        event is RequestEnded && event->RequestEnded_0 is Err ==> step->Done_0 is Err
            && step->Done_0->Err_0@.cause == Some(event->RequestEnded_0->Err_0@),
        event is ResponseEnded && event->ResponseEnded_0 is Err ==> step->Done_0 is Err
            && step->Done_0->Err_0@.cause == Some(event->ResponseEnded_0->Err_0@),
        event is ResponseEnded && event->ResponseEnded_0 is Ok ==> (step->Done_0 is Ok
            <==> event->ResponseEnded_0->Ok_0.success),
        event is ResponseEnded && event->ResponseEnded_0 is Ok
            && !event->ResponseEnded_0->Ok_0.success ==> step->Done_0->Err_0@.message
            == "ssh podman dial-stdio exited with "@ + event->ResponseEnded_0->Ok_0.status@ + ": "@
            + trimmed(event->ResponseEnded_0->Ok_0.stderr@),
{
}

} // verus!
