use rumpelpod::client::Body;
use rumpelpod::client::PodClient;
use rumpelpod::client::Verdict;
use rumpelpod::greeting::Greeting;
use rumpelpod::greeting::GreetingStep;
use rumpelpod::readiness::readiness_of;
use rumpelpod::readiness::ConnectEvent;
use rumpelpod::readiness::ConnectStep;
use rumpelpod::readiness::Readiness;

/// What the host does before grok can start in a container: it waits for the
/// server, reads the greeting, and sends the agent's files. Grok itself, and what
/// it shows, is not part of this.
#[test]
fn grok_smoke() {
    let client = PodClient::new("http://127.0.0.1:7070/", "token");
    assert!(matches!(
        Readiness::new().step(client.url(), ConnectEvent::Opened),
        ConnectStep::ReadGreeting
    ));

    let mut greeting = Greeting::new();
    let mut outcome = None;
    for line in ["event: state\n", "data: {\"lifecycle_error\":null}\n", "\n"] {
        match greeting.step(Ok(line.to_string())) {
            GreetingStep::ReadOn { next, .. } => greeting = next,
            GreetingStep::Done(done) => {
                outcome = Some(done);
                break;
            }
        }
    }
    assert!(readiness_of(outcome.expect("a greeting")).is_ok());

    let upload = client.put_agent_files("grok", None);
    assert_eq!(upload.request.url, "http://127.0.0.1:7070/agent-files/grok");
    assert_eq!(upload.request.body, Body::Archive);
    assert_eq!(upload.verdict(200), Verdict::Granted);
}
