use rumpelpod::client::content_of;
use rumpelpod::client::Body;
use rumpelpod::client::ContentError;
use rumpelpod::client::Exchange;
use rumpelpod::client::Method;
use rumpelpod::client::PodClient;
use rumpelpod::client::Request;
use rumpelpod::client::Verdict;
use rumpelpod::failure::Failure;

fn client() -> PodClient {
    PodClient::new("http://127.0.0.1:7070//", "secret")
}

fn pairs(list: &[(&str, &str)]) -> Vec<(String, String)> {
    list.iter().map(|(a, b)| (a.to_string(), b.to_string())).collect()
}

fn check(request: &Request, method: Method, path: &str, headers: &[(&str, &str)], query: &[(&str, &str)], body: Body) {
    assert_eq!(request.method, method);
    assert_eq!(request.url, format!("http://127.0.0.1:7070{path}"));
    let mut all = pairs(&[("Authorization", "Bearer secret")]);
    all.extend(pairs(headers));
    assert_eq!(request.headers, all);
    assert_eq!(request.query, pairs(query));
    assert_eq!(request.body, body);
}

const ARCHIVE: [(&str, &str); 2] =
    [("Content-Type", "application/x-tar"), ("Content-Encoding", "gzip")];

#[test]
fn address_is_used_without_separators_at_its_end() {
    assert_eq!(client().url(), "http://127.0.0.1:7070");
    assert_eq!(PodClient::new("http://h", "t").url(), "http://h");
}

#[test]
fn events_are_asked_for() {
    check(&client().events(), Method::Get, "/events", &[], &[], Body::Empty);
}

#[test]
fn values_are_posted_as_json() {
    let cases = [
        (client().post("/x"), "/x"),
        (client().write_home_files(), "/write-home-files"),
        (client().fs_read(), "/fs/read"),
    ];
    for (exchange, path) in cases {
        check(&exchange.request, Method::Post, path, &[], &[], Body::Json);
        assert_eq!(exchange.operation, path);
        assert_eq!(exchange.reading, Some(format!("parsing response from {path}")));
        assert!(!exchange.may_be_absent);
    }
}

#[test]
fn patches_travel_as_bytes() {
    let get = client().git_patch_get();
    check(&get.request, Method::Get, "/git/patch", &[], &[], Body::Empty);
    assert_eq!(get.operation, "GET /git/patch");
    assert_eq!(get.reading.as_deref(), Some("reading /git/patch body"));
    let apply = client().git_patch_apply();
    check(
        &apply.request,
        Method::Post,
        "/git/patch",
        &[("Content-Type", "application/octet-stream")],
        &[],
        Body::Bytes,
    );
    assert_eq!(apply.operation, "POST /git/patch");
}

#[test]
fn agent_files_may_be_absent() {
    let get = client().get_agent_files("grok");
    check(&get.request, Method::Get, "/agent-files/grok", &[], &[], Body::Empty);
    assert_eq!(get.operation, "GET /agent-files/grok");
    assert_eq!(get.verdict(404), Verdict::Absent);
    assert_eq!(get.verdict(200), Verdict::Granted);
    assert_eq!(get.verdict(500), Verdict::Rejected);
}

#[test]
fn permission_hook_is_a_query_parameter() {
    for (hook, query) in [
        (Some(true), vec![("permission_hook", "true")]),
        (Some(false), vec![("permission_hook", "false")]),
        (None, vec![]),
    ] {
        let put = client().put_agent_files("codex", hook);
        check(&put.request, Method::Put, "/agent-files/codex", &ARCHIVE, &query, Body::Archive);
        assert_eq!(put.operation, "PUT /agent-files/codex");
        assert_eq!(put.verdict(404), Verdict::Rejected);
    }
}

#[test]
fn metadata_is_asked_for() {
    let env = client().get_container_env();
    check(&env.request, Method::Get, "/container-env", &[], &[], Body::Empty);
    assert_eq!(env.operation, "GET /container-env");
    assert_eq!(env.reading.as_deref(), Some("parsing /container-env response"));
    let state = client().get_state();
    check(&state.request, Method::Get, "/state", &[], &[], Body::Empty);
    assert_eq!(state.operation, "GET /state");
    assert_eq!(state.reading.as_deref(), Some("parsing /state response"));
    let push = client().git_push();
    check(&push.request, Method::Post, "/git/push", &[], &[], Body::Empty);
    assert_eq!(push.operation, "POST /git/push");
    assert_eq!(push.reading, None);
}

#[test]
fn files_are_copied_as_archives() {
    let down = client().cp_download("/work/a b", true);
    check(
        &down.request,
        Method::Get,
        "/cp",
        &[],
        &[("path", "/work/a b"), ("follow_symlinks", "true")],
        Body::Empty,
    );
    assert_eq!(down.operation, "GET /cp");
    assert_eq!(client().cp_download("/x", false).request.query[1].1, "false");
    let up = client().cp_upload("/work");
    let mut headers = ARCHIVE.to_vec();
    headers.push(("X-Path", "/work"));
    check(&up.request, Method::Post, "/cp", &headers, &[], Body::Archive);
    assert_eq!(up.operation, "POST /cp");
    let mounts = client().init_mounts();
    check(&mounts.request, Method::Post, "/init-mounts", &ARCHIVE, &[], Body::Archive);
    assert_eq!(mounts.operation, "POST /init-mounts");
}

#[test]
fn input_of_a_command_is_sent_in_base64() {
    let env = vec!["A=1".to_string(), "B=2".to_string()];
    let (exchange, payload) =
        client().run(&["sh", "-c", "cat"], Some("/work"), &env, Some(&[0xfb, 0xff, 0xfe, 0x01]), Some(9));
    check(&exchange.request, Method::Post, "/run", &[], &[], Body::Json);
    assert_eq!(payload.cmd, ["sh", "-c", "cat"]);
    assert_eq!(payload.workdir.as_deref(), Some("/work"));
    assert_eq!(payload.env, env);
    assert_eq!(payload.stdin.as_deref(), Some("+//+AQ=="));
    assert_eq!(payload.timeout_secs, Some(9));
    let (_, bare) = client().run(&[], None, &[], None, None);
    assert!(bare.cmd.is_empty() && bare.workdir.is_none() && bare.env.is_empty());
    assert!(bare.stdin.is_none() && bare.timeout_secs.is_none());
}

#[test]
fn files_are_read_from_base64() {
    assert_eq!(PodClient::fs_read_content("+//+AQ==").unwrap(), [0xfb, 0xff, 0xfe, 0x01]);
    assert_eq!(PodClient::fs_read_content("").unwrap(), Vec::<u8>::new());
    assert!(PodClient::fs_read_content("+//+AQ").is_err());
    assert!(PodClient::fs_read_content("-__-AQ==").is_err());
    let (_, payload) = client().run(&[], None, &[], Some(b"what was sent"), None);
    assert_eq!(
        PodClient::fs_read_content(&payload.stdin.unwrap()).unwrap(),
        b"what was sent"
    );
}

fn exchange() -> Exchange {
    client().get_state()
}

#[test]
fn statuses_are_judged() {
    for status in [200u16, 204, 299] {
        assert_eq!(exchange().verdict(status), Verdict::Granted);
    }
    for status in [100u16, 199, 300, 302, 403, 404, 500] {
        assert_eq!(exchange().verdict(status), Verdict::Rejected);
    }
}

#[test]
fn failures_say_what_was_asked() {
    let plain = |message: &str| Failure::plain(message.to_string());
    assert_eq!(
        exchange().rejected(Some("no such pod".to_string())),
        plain("GET /state: no such pod")
    );
    assert_eq!(exchange().rejected(None), plain("GET /state: unknown error"));
    assert_eq!(
        exchange().unsent("connection refused".to_string()),
        Failure::new(
            "sending request to http://127.0.0.1:7070/state",
            "connection refused".to_string()
        )
    );
    assert_eq!(
        exchange().unreadable("eof".to_string()),
        Failure::new("parsing /state response", "eof".to_string())
    );
    assert_eq!(client().git_push().unreadable("eof".to_string()), plain("eof"));
}

#[test]
fn every_request_is_authorized() {
    let requests = [
        client().events(),
        client().post("/x").request,
        client().get_agent_files("a").request,
        client().put_agent_files("a", None).request,
        client().cp_upload("/").request,
        client().run(&[], None, &[], None, None).0.request,
    ];
    for request in requests {
        assert!(request.headers.contains(&("Authorization".to_string(), "Bearer secret".to_string())));
        assert!(request.url.starts_with("http://127.0.0.1:7070/"));
    }
}

#[test]
fn decoded_content_is_passed_on() {
    assert_eq!(content_of(Ok(vec![1, 2])).unwrap(), [1, 2]);
    let fault = base64::DecodeError::InvalidPadding;
    assert!(matches!(
        content_of(Err(fault)),
        Err(ContentError::NotBase64(base64::DecodeError::InvalidPadding))
    ));
}
