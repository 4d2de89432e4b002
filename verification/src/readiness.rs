//! Waiting for the server in a container.
//!
//! The client asks for the event stream again and again, with growing pauses,
//! until the server answers or the deadline passes; then it reads the greeting
//! that the stream starts with. A [`Readiness`] counts the attempts and knows
//! the next pause.
use vstd::arithmetic::power2::lemma2_to64;
use vstd::arithmetic::power2::lemma_pow2_pos;
use vstd::arithmetic::power2::lemma_pow2_unfold;
use vstd::arithmetic::power2::pow2;
use vstd::prelude::*;
use vstd::string::*;

use crate::failure::because;
use crate::failure::Failure;
use crate::greeting::failure_of;
use crate::greeting::outcome_of;
use crate::greeting::GreetingError;
use crate::text::decimal;
use crate::text::decimal_text;
use crate::text::law_decimals_stand_for_their_number;
use crate::text::number_of;

verus! {

/// How long connecting to the server may take, in seconds.
pub const CONNECT_TIMEOUT_SECS: u64 = 10;

/// How long the event stream may be silent, in seconds. Heartbeats keep it
/// from being silent for that long while start-up goes on.
pub const READ_TIMEOUT_SECS: u64 = 30;

/// How long the server may take to answer at all, in seconds.
pub const ANSWER_TIMEOUT_SECS: u64 = 30;

/// The first pause between two attempts, in milliseconds.
pub const FIRST_PAUSE_MILLIS: u64 = 100;

/// The longest pause between two attempts, in milliseconds.
pub const LONGEST_PAUSE_MILLIS: u64 = 5000;

/// The pause behind the failed attempt number `failures + 1`: each is twice the
/// one before it, up to the longest.
pub open spec fn pause_after(failures: nat) -> nat
    decreases failures,
{
    if failures == 0 {
        FIRST_PAUSE_MILLIS as nat
    } else {
        let doubled = 2 * pause_after((failures - 1) as nat);
        if doubled < LONGEST_PAUSE_MILLIS {
            doubled
        } else {
            LONGEST_PAUSE_MILLIS as nat
        }
    }
}

/// The attempts to reach the server so far.
#[derive(Debug)]
pub struct Readiness {
    attempts: u32,
    pause_millis: u64,
}

/// What came of an attempt.
#[derive(Debug)]
pub enum ConnectEvent {
    /// The server opened the event stream.
    Opened,
    /// The server answered with an error.
    Refused(String),
    /// The server did not answer.
    Unreachable(String),
    /// The time for all attempts together is up.
    DeadlinePassed(String),
}

/// What to do about it.
#[derive(Debug)]
pub enum ConnectStep {
    /// Read the greeting from the stream.
    ReadGreeting,
    /// Report the progress, pause for about that long, and try again.
    Retry { next: Readiness, progress: String, pause_millis: u64 },
    /// Give up.
    Fail(Failure),
}

/// The progress message for attempt number `attempt`.
pub open spec fn attempt_text(attempt: nat, cause: Seq<char>) -> Seq<char> {
    "waiting for container server (attempt "@ + decimal(attempt) + ": "@ + cause + ")..."@
}

/// The message for a server at `url` that never answered.
pub open spec fn no_answer_text(url: Seq<char>) -> Seq<char> {
    "container server at "@ + url + " did not respond within 30 seconds"@
}

impl Readiness {
    /// How many attempts have failed.
    pub closed spec fn view(&self) -> nat {
        self.attempts as nat
    }

    #[verifier::type_invariant]
    spec fn paces(self) -> bool {
        self.pause_millis == pause_after(self.attempts as nat)
    }

    /// Before the first attempt.
    pub fn new() -> (r: Readiness)
        ensures
            r@ == 0,
    {
        Readiness { attempts: 0, pause_millis: FIRST_PAUSE_MILLIS }
    }

    /// What to do about the outcome of an attempt to reach the server at `url`.
    pub fn step(self, url: &str, event: ConnectEvent) -> (r: ConnectStep)
        requires
            event is Unreachable ==> self@ < u32::MAX,
        ensures
            match event {
                ConnectEvent::Opened => r == ConnectStep::ReadGreeting,
                ConnectEvent::Refused(cause) => r matches ConnectStep::Fail(failure) && failure@
                    == because("opening readiness stream"@, cause@),
                ConnectEvent::Unreachable(cause) => r matches ConnectStep::Retry {
                    next,
                    progress,
                    pause_millis,
                } && next@ == self@ + 1 && progress@ == attempt_text(self@ + 1, cause@)
                    && pause_millis == pause_after(self@),
                ConnectEvent::DeadlinePassed(cause) => r matches ConnectStep::Fail(failure)
                    && failure@ == because(no_answer_text(url@), cause@),
            },
    {
        proof {
            use_type_invariant(&self);
            law_pauses_grow_to_the_longest(self.attempts as nat);
        }
        match event {
            ConnectEvent::Opened => ConnectStep::ReadGreeting,
            ConnectEvent::Refused(cause) => ConnectStep::Fail(
                Failure::new("opening readiness stream", cause),
            ),
            ConnectEvent::Unreachable(cause) => {
                let attempts: u32 = self.attempts + 1;
                let mut progress = "waiting for container server (attempt ".to_owned();
                progress.append(decimal_text(attempts as u64).as_str());
                progress.append(": ");
                progress.append(cause.as_str());
                progress.append(")...");
                let doubled: u64 = 2 * self.pause_millis;
                let pause_millis: u64 = if doubled < LONGEST_PAUSE_MILLIS {
                    doubled
                } else {
                    LONGEST_PAUSE_MILLIS
                };
                ConnectStep::Retry {
                    next: Readiness { attempts, pause_millis },
                    progress,
                    pause_millis: self.pause_millis,
                }
            },
            ConnectEvent::DeadlinePassed(cause) => {
                let mut message = "container server at ".to_owned();
                message.append(url);
                message.append(" did not respond within 30 seconds");
                ConnectStep::Fail(Failure::new(message.as_str(), cause))
            },
        }
    }
}

/// The pauses never shrink, never fall below the first and never exceed the
/// longest, which is reached after six failures.
pub proof fn law_pauses_grow_to_the_longest(failures: nat)
    ensures
        FIRST_PAUSE_MILLIS <= pause_after(failures) <= LONGEST_PAUSE_MILLIS,
        pause_after(failures) <= pause_after(failures + 1),
        failures >= 6 ==> pause_after(failures) == LONGEST_PAUSE_MILLIS,
    decreases failures,
{
    reveal_with_fuel(pause_after, 8);
    if failures > 0 {
        law_pauses_grow_to_the_longest((failures - 1) as nat);
    }
}

/// Why a container is not ready.
#[derive(Debug)]
pub enum NotReady {
    /// A lifecycle command failed, as the greeting says.
    Lifecycle(String),
    /// There was no greeting.
    Greeting(GreetingError),
}

impl NotReady {
    /// The greeting that says so.
    pub open spec fn greeting(self) -> Result<Option<String>, GreetingError> {
        match self {
            NotReady::Lifecycle(error) => Ok(Some(error)),
            NotReady::Greeting(error) => Err(error),
        }
    }

    /// What failed, and why.
    pub fn failure(self) -> (r: Failure)
        ensures
            Some(r@) == failure_of(outcome_of(self.greeting())),
    {
        match self {
            NotReady::Lifecycle(error) => Failure::plain(error),
            NotReady::Greeting(error) => error.failure(),
        }
    }
}

/// Whether the container is ready, by the greeting that was read. A lifecycle
/// error in the greeting is an error.
pub fn readiness_of(greeting: Result<Option<String>, GreetingError>) -> (r: Result<(), NotReady>)
    ensures
        match greeting {
            Ok(None) => r is Ok,
            Ok(Some(error)) => r == Err::<(), NotReady>(NotReady::Lifecycle(error)),
            Err(error) => r == Err::<(), NotReady>(NotReady::Greeting(error)),
        },
{
    match greeting {
        Ok(None) => Ok(()),
        Ok(Some(error)) => Err(NotReady::Lifecycle(error)),
        Err(error) => Err(NotReady::Greeting(error)),
    }
}

/// The pause doubles with every failure, from a tenth of a second up to five
/// seconds.
pub proof fn law_pauses_double_up_to_five_seconds(failures: nat)
    ensures
        pause_after(failures) == if 100 * pow2(failures) < 5000 {
            100 * pow2(failures)
        } else {
            5000
        },
    decreases failures,
{
    lemma2_to64();
    lemma_pow2_pos(failures);
    if failures > 0 {
        law_pauses_double_up_to_five_seconds((failures - 1) as nat);
        lemma_pow2_unfold(failures);
    }
}

/// A progress message counts the attempt by a number that stands for it, and
/// holds the whole cause.
pub proof fn law_progress_counts_attempts(attempt: nat, cause: Seq<char>)
    ensures
        ({
            let message = attempt_text(attempt, cause);
            let front = "waiting for container server (attempt "@;
            let end = message.len() - cause.len() - 6;
            &&& front.is_prefix_of(message)
            &&& number_of(message.subrange(front.len() as int, end)) == attempt
            &&& message.skip(end) == ": "@ + cause + ")..."@
        }),
{
    reveal_strlit(": ");
    reveal_strlit(")...");
    let message = attempt_text(attempt, cause);
    let front = "waiting for container server (attempt "@;
    let end = message.len() - cause.len() - 6;
    law_decimals_stand_for_their_number(attempt);
    assert(message.take(front.len() as int) =~= front);
    assert(message.subrange(front.len() as int, end) =~= decimal(attempt));
    assert(message.skip(end) =~= ": "@ + cause + ")..."@);
}

/// The message for a server that never answered holds its whole address.
pub proof fn law_silent_servers_are_named(url: Seq<char>)
    ensures
        ({
            let front = "container server at "@;
            let message = no_answer_text(url);
            &&& message.take(front.len() + url.len() as int) == front + url
            &&& message.skip(front.len() + url.len() as int)
                == " did not respond within 30 seconds"@
        }),
{
    let front = "container server at "@;
    let message = no_answer_text(url);
    assert(message.take(front.len() + url.len() as int) =~= front + url);
    assert(message.skip(front.len() + url.len() as int)
        =~= " did not respond within 30 seconds"@);
}

/// A container that is not ready was greeted with what it is not ready for: the
/// lifecycle error, or the failure to read a greeting.
pub proof fn law_unready_containers_keep_their_reason(error: String, lost: GreetingError)
    ensures
        NotReady::Lifecycle(error).greeting() == Ok::<Option<String>, GreetingError>(Some(error)),
        NotReady::Greeting(lost).greeting() == Err::<Option<String>, GreetingError>(lost),
{
}

/// An attempt is made again exactly if the server did not answer, after a pause
/// that doubles from a tenth of a second to five seconds, counted and told with the
/// whole cause. Any other outcome ends the attempts, with the whole cause where it
/// is a failure.
pub proof fn law_attempts_go_on_until_an_answer(
    readiness: Readiness,
    url: &str,
    event: ConnectEvent,
    step: ConnectStep,
)
    requires
        event is Unreachable ==> readiness@ < u32::MAX,
        call_ensures(Readiness::step, (readiness, url, event), step),
    ensures
        step is Retry <==> event is Unreachable,
        step is ReadGreeting <==> event is Opened,
        step is Retry ==> step->next@ == readiness@ + 1,
        step is Retry ==> step->pause_millis == if 100 * pow2(readiness@) < 5000 {
            100 * pow2(readiness@)
        } else {
            5000
        },
        step is Retry ==> step->progress@ == "waiting for container server (attempt "@ + decimal(
            readiness@ + 1,
        ) + ": "@ + event->Unreachable_0@ + ")..."@,
        event is Refused ==> step->Fail_0@.message == "opening readiness stream"@
            && step->Fail_0@.cause == Some(event->Refused_0@),
        event is DeadlinePassed ==> step->Fail_0@.message == "container server at "@ + url@
            + " did not respond within 30 seconds"@ && step->Fail_0@.cause == Some(
            event->DeadlinePassed_0@,
        ),
{
    law_pauses_double_up_to_five_seconds(readiness@);
}

/// A container is ready exactly if its greeting says so, and else what the greeting
/// said is kept as it is.
pub proof fn law_readiness_follows_the_greeting(
    greeting: Result<Option<String>, GreetingError>,
    ready: Result<(), NotReady>,
)
    requires
        call_ensures(readiness_of, (greeting,), ready),
    ensures
        ready is Ok <==> greeting is Ok && greeting->Ok_0 is None,
        ready is Err ==> (ready->Err_0 is Lifecycle <==> greeting is Ok),
        ready is Err && ready->Err_0 is Lifecycle ==> ready->Err_0->Lifecycle_0@
            == greeting->Ok_0->0@,
        ready is Err && ready->Err_0 is Greeting ==> ready->Err_0->Greeting_0 == greeting->Err_0,
{
}

/// A lifecycle error is the failure of its container word for word.
pub proof fn law_lifecycle_errors_are_told_whole(error: String, failure: Failure)
    requires
        call_ensures(NotReady::failure, (NotReady::Lifecycle(error),), failure),
    ensures
        failure@.message == error@,
        failure@.cause is None,
{
}

} // verus!
