//! The parts of the configuration that the library decides on.
use vstd::prelude::*;
use vstd::string::*;

verus! {

/// The container engine of a host.
#[derive(Debug, Clone, Copy, PartialEq, Eq, Structural)]
pub enum ContainerEngine {
    Docker,
    Podman,
    /// Not chosen yet; resolving a configuration replaces it.
    Auto,
}

/// Where pods run. What only the backend of a host reads stays text here.
#[derive(Debug)]
pub enum Host {
    Localhost { settings: String },
    Ssh { ssh_destination: String, engine: ContainerEngine },
    Kubernetes { settings: String },
}

/// A [`Host`] with its text as characters.
pub enum HostView {
    Localhost { settings: Seq<char> },
    Ssh { ssh_destination: Seq<char>, engine: ContainerEngine },
    Kubernetes { settings: Seq<char> },
}

impl View for Host {
    type V = HostView;

    open spec fn view(&self) -> HostView {
        match self {
            Host::Localhost { settings } => HostView::Localhost { settings: settings@ },
            Host::Ssh { ssh_destination, engine } => HostView::Ssh {
                ssh_destination: ssh_destination@,
                engine: *engine,
            },
            Host::Kubernetes { settings } => HostView::Kubernetes { settings: settings@ },
        }
    }
}

impl Clone for Host {
    fn clone(&self) -> (r: Self)
        ensures
            r@ == self@,
    {
        match self {
            Host::Localhost { settings } => Host::Localhost { settings: settings.clone() },
            Host::Ssh { ssh_destination, engine } => Host::Ssh {
                ssh_destination: ssh_destination.clone(),
                engine: *engine,
            },
            Host::Kubernetes { settings } => Host::Kubernetes { settings: settings.clone() },
        }
    }
}

/// Who waits for a connection to a pod.
#[derive(Debug, Clone, Copy, PartialEq, Eq, Structural)]
pub enum RetryPolicy {
    /// A user who wants to see what is waited for.
    UserBlocking,
    /// Nobody who reads progress messages.
    Background,
}

impl RetryPolicy {
    /// Whether progress messages are shown.
    pub fn shows_progress(self) -> (r: bool)
        ensures
            r == (self == RetryPolicy::UserBlocking),
    {
        match self {
            RetryPolicy::UserBlocking => true,
            RetryPolicy::Background => false,
        }
    }
}

/// Hosts are viewed with all that they hold.
pub proof fn law_hosts_are_viewed_whole(text: String, engine: ContainerEngine)
    ensures
        (Host::Localhost { settings: text })@ == (HostView::Localhost { settings: text@ }),
        (Host::Ssh { ssh_destination: text, engine })@ == (HostView::Ssh {
            ssh_destination: text@,
            engine,
        }),
        (Host::Kubernetes { settings: text })@ == (HostView::Kubernetes { settings: text@ }),
{
}

/// A copy of a host is the same host, and progress is shown exactly to a user who
/// waits for it.
pub proof fn law_copies_and_policies_are_plain(
    host: Host,
    copy: Host,
    policy: RetryPolicy,
    shows: bool,
)
    requires
        call_ensures(Host::clone, (&host,), copy),
        call_ensures(RetryPolicy::shows_progress, (policy,), shows),
    ensures
        copy@ == host@,
        copy is Localhost <==> host is Localhost,
        copy is Ssh <==> host is Ssh,
        copy is Ssh ==> copy->ssh_destination@ == host->ssh_destination@ && copy->engine
            == host->engine,
        shows <==> policy is UserBlocking,
{
}

} // verus!
