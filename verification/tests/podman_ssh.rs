use rumpelpod::config::ContainerEngine;
use rumpelpod::config::Host;
use rumpelpod::podman_ssh::accept_step;
use rumpelpod::podman_ssh::bridge_step;
use rumpelpod::podman_ssh::connection_failed_text;
use rumpelpod::podman_ssh::poll_verdict;
use rumpelpod::podman_ssh::serve_command;
use rumpelpod::podman_ssh::setup_failure;
use rumpelpod::podman_ssh::BridgeEvent;
use rumpelpod::podman_ssh::BridgeFault;
use rumpelpod::podman_ssh::BridgeStep;
use rumpelpod::podman_ssh::PodmanSshProxy;
use rumpelpod::podman_ssh::PollVerdict;
use rumpelpod::podman_ssh::ProxyAction;
use rumpelpod::podman_ssh::ProxyEvent;
use rumpelpod::podman_ssh::RemoteExit;
use rumpelpod::podman_ssh::StartStep;
use rumpelpod::podman_ssh::DIRECTORY_MODE;
use rumpelpod::podman_ssh::DIRECTORY_PARENT;
use rumpelpod::podman_ssh::DIRECTORY_PREFIX;

#[test]
fn socket_stands_in_the_proxy_directory() {
    let proxy = PodmanSshProxy::start("/tmp/rp-podman-x1");
    assert_eq!(proxy.socket_path(), "/tmp/rp-podman-x1/podman.sock");
    assert_eq!(DIRECTORY_PARENT, "/tmp");
    assert_eq!(DIRECTORY_PREFIX, "rp-podman-");
    assert_eq!(DIRECTORY_MODE, 0o700);
}

#[test]
fn only_podman_over_ssh_needs_a_proxy() {
    let ssh = |engine| Host::Ssh { ssh_destination: "me@box".to_string(), engine };
    assert_eq!(PodmanSshProxy::for_host(&ssh(ContainerEngine::Podman)), Some("me@box".to_string()));
    assert_eq!(PodmanSshProxy::for_host(&ssh(ContainerEngine::Docker)), None);
    assert_eq!(PodmanSshProxy::for_host(&Host::Localhost { settings: String::new() }), None);
    assert_eq!(PodmanSshProxy::for_host(&Host::Kubernetes { settings: String::new() }), None);
}

#[test]
fn directory_is_restricted_before_the_bind() {
    let mut steps = vec![StartStep::CreateDirectory];
    while let Some(next) = steps[steps.len() - 1].ended("/tmp/s", Ok(())).unwrap() {
        steps.push(next);
    }
    assert_eq!(
        steps,
        [
            StartStep::CreateDirectory,
            StartStep::RestrictDirectory,
            StartStep::Bind,
            StartStep::SetNonblocking,
            StartStep::Register,
            StartStep::Accept,
        ]
    );
}

#[test]
fn start_failures_say_what_failed() {
    let fails = |step: StartStep| step.ended("/tmp/s", Err("no".to_string())).unwrap_err().text();
    assert_eq!(fails(StartStep::CreateDirectory), "creating podman ssh proxy dir: no");
    assert_eq!(fails(StartStep::RestrictDirectory), "restricting podman ssh proxy dir: no");
    assert_eq!(fails(StartStep::Bind), "binding podman ssh proxy /tmp/s: no");
    assert_eq!(fails(StartStep::SetNonblocking), "configuring podman proxy listener: no");
    assert_eq!(fails(StartStep::Register), "no");
    assert_eq!(fails(StartStep::Accept), "no");
}

#[test]
fn a_failed_connection_does_not_end_the_loop() {
    assert!(matches!(
        accept_step(ProxyEvent::TaskEnded(Ok(()))),
        ProxyAction::GoOn { log: None }
    ));
    assert!(matches!(
        accept_step(ProxyEvent::TaskEnded(Err("panic".to_string()))),
        ProxyAction::GoOn { log: Some(ref line) } if line == "podman proxy task failed: panic"
    ));
    assert!(matches!(accept_step(ProxyEvent::Accepted(Ok(()))), ProxyAction::Serve));
    assert!(matches!(
        accept_step(ProxyEvent::Accepted(Err("closed".to_string()))),
        ProxyAction::Stop { ref reason } if reason == "podman ssh proxy accept failed: closed"
    ));
    assert_eq!(
        connection_failed_text("me@box", "refused"),
        "podman ssh proxy connection to me@box failed: refused"
    );
}

#[test]
fn connections_are_served_by_ssh_without_a_prompt() {
    let command = serve_command("me@box");
    assert_eq!(command.program, "ssh");
    assert_eq!(command.args, ["-o", "BatchMode=yes", "me@box", "podman", "system", "dial-stdio"]);
}

fn exit(success: bool, stderr: &str) -> RemoteExit {
    RemoteExit {
        success,
        status: "exit status: 255".to_string(),
        stderr: stderr.to_string(),
    }
}

fn done(event: BridgeEvent) -> Result<(), String> {
    match bridge_step(event) {
        BridgeStep::Done(result) => result.map_err(|failure| failure.text()),
        BridgeStep::CloseInput => panic!("not done"),
    }
}

#[test]
fn the_end_of_the_request_keeps_the_bridge_open() {
    assert!(matches!(
        bridge_step(BridgeEvent::RequestEnded(Ok(()))),
        BridgeStep::CloseInput
    ));
}

#[test]
fn a_bridge_ends_with_its_response_or_its_client() {
    assert_eq!(done(BridgeEvent::ResponseEnded(Ok(exit(true, "noise")))), Ok(()));
    assert_eq!(
        done(BridgeEvent::ResponseEnded(Ok(exit(false, " Permission denied\n")))),
        Err("ssh podman dial-stdio exited with exit status: 255: Permission denied".to_string())
    );
    assert_eq!(done(BridgeEvent::Disconnected(Ok(()))), Ok(()));
}

#[test]
fn bridge_failures_say_what_failed() {
    assert_eq!(
        done(BridgeEvent::RequestEnded(Err("reset".to_string()))),
        Err("forwarding podman request: reset".to_string())
    );
    assert_eq!(
        done(BridgeEvent::ResponseEnded(Err("reset".to_string()))),
        Err("forwarding podman response: reset".to_string())
    );
    assert_eq!(
        done(BridgeEvent::Disconnected(Err("EBADF".to_string()))),
        Err("watching podman client: EBADF".to_string())
    );
}

#[test]
fn only_a_hang_up_says_that_the_client_is_gone() {
    assert_eq!(poll_verdict(-1, 0x10, 0x10), PollVerdict::PollFailed);
    assert_eq!(poll_verdict(1, 0x10, 0x10), PollVerdict::Gone);
    assert_eq!(poll_verdict(1, 0x11, 0x10), PollVerdict::Gone);
    assert_eq!(poll_verdict(1, 0x01, 0x10), PollVerdict::Present);
    assert_eq!(poll_verdict(0, 0, 0x10), PollVerdict::Present);
}

#[test]
fn bridges_that_cannot_be_set_up_say_why() {
    assert_eq!(
        setup_failure(BridgeFault::NotSpawned("no ssh".to_string())).text(),
        "spawning ssh podman dial-stdio: no ssh"
    );
    assert_eq!(setup_failure(BridgeFault::NoStdin).text(), "ssh child stdin missing");
    assert_eq!(setup_failure(BridgeFault::NoStdout).text(), "ssh child stdout missing");
    assert_eq!(setup_failure(BridgeFault::NoStderr).text(), "ssh child stderr missing");
}
