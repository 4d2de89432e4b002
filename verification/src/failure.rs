//! What failed, and why.
use vstd::prelude::*;
use vstd::string::*;

verus! {

/// A failure: its own text, and behind it what it goes back to.
#[derive(Debug, PartialEq, Eq)]
pub struct Failure {
    pub message: String,
    pub cause: Option<String>,
}

/// A [`Failure`] with its text as characters.
pub struct FailureView {
    pub message: Seq<char>,
    pub cause: Option<Seq<char>>,
}

impl View for Failure {
    type V = FailureView;

    open spec fn view(&self) -> FailureView {
        FailureView { message: self.message@, cause: self.cause.deep_view() }
    }
}

/// The failure that says `message` and goes back to `cause`.
pub open spec fn because(message: Seq<char>, cause: Seq<char>) -> FailureView {
    FailureView { message, cause: Some(cause) }
}

/// The failure that says `message` and goes back to nothing else.
pub open spec fn plainly(message: Seq<char>) -> FailureView {
    FailureView { message, cause: None }
}

/// A failure in one line: what failed, and why where that is known.
pub open spec fn whole_text(failure: FailureView) -> Seq<char> {
    match failure.cause {
        Some(cause) => failure.message + ": "@ + cause,
        None => failure.message,
    }
}

impl Failure {
    /// The failure that says `message` and goes back to `cause`.
    pub fn new(message: &str, cause: String) -> (r: Failure)
        ensures
            r@ == because(message@, cause@),
    {
        Failure { message: message.to_owned(), cause: Some(cause) }
    }

    /// The failure that says `message` and goes back to nothing else.
    pub fn plain(message: String) -> (r: Failure)
        ensures
            r@ == plainly(message@),
    {
        Failure { message, cause: None }
    }

    /// The failure in one line.
    pub fn text(&self) -> (r: String)
        ensures
            r@ == whole_text(self@),
    {
        let mut text = self.message.clone();
        match &self.cause {
            Some(cause) => {
                text.append(": ");
                text.append(cause.as_str());
            },
            None => {},
        }
        text
    }
}

/// A failure is shown with its own text first and, where it goes back to
/// something, with all of that behind it; a failure that goes back to nothing is
/// its own text. No two failures of one message are shown alike.
pub proof fn law_failures_are_shown_whole(message: Seq<char>, cause: Seq<char>, other: Seq<char>)
    ensures
        message.is_prefix_of(whole_text(because(message, cause))),
        whole_text(because(message, cause)).skip(message.len() as int) == ": "@ + cause,
        whole_text(because(message, cause)).len() == message.len() + 2 + cause.len(),
        whole_text(plainly(message)) == message,
        because(message, cause).message == message && because(message, cause).cause == Some(cause),
        plainly(message).message == message && plainly(message).cause is None,
        whole_text(because(message, cause)) == whole_text(because(message, other)) ==> cause
            == other,
{
    reveal_strlit(": ");
    let whole = whole_text(because(message, cause));
    assert(whole.take(message.len() as int) =~= message);
    assert(whole.skip(message.len() as int) =~= ": "@ + cause);
    assert(whole.skip(message.len() as int + 2) =~= cause);
    assert(whole_text(because(message, other)).skip(message.len() as int + 2) =~= other);
}

/// A failure's view shows its message and its cause as they are.
pub proof fn law_failures_are_viewed_whole(failure: Failure)
    ensures
        failure@.message == failure.message@,
        failure.cause is None <==> failure@.cause is None,
        failure.cause is Some ==> failure@.cause == Some(failure.cause->0@),
{
}

/// A failure is made of what it is given, and shown with all of it.
pub proof fn law_failures_keep_what_they_are_given(
    message: &str,
    text: String,
    failure: Failure,
    plain: Failure,
    shown: String,
)
    requires
        call_ensures(Failure::new, (message, text), failure),
        call_ensures(Failure::plain, (text,), plain),
        call_ensures(Failure::text, (&failure,), shown),
    ensures
        failure.message@ == message@,
        failure.cause is Some && failure.cause->0@ == text@,
        plain.message@ == text@,
        plain.cause is None,
        shown@ == message@ + ": "@ + text@,
{
}

} // verus!
