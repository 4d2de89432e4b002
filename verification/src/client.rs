//! The client of the server in a container: what it sends, and what the answers
//! mean.
//!
//! Each method of [`PodClient`] describes one [`Exchange`]: the request to
//! send, and how to take the answer. Sending is left to the caller.
use vstd::prelude::*;
use vstd::string::*;

use crate::failure::because;
use crate::failure::plainly;
use crate::failure::Failure;
use crate::failure::FailureView;
use crate::outside::base64_bytes;
use crate::outside::base64_decode;
use crate::outside::base64_encode;
use crate::outside::base64_text;
use crate::outside::is_encodable;
use crate::text::lemma_trimmed_end_of;
use crate::text::trim_end_of;
use crate::text::trimmed_end_of;

verus! {

/// The method of a request.
#[derive(Debug, Clone, Copy, PartialEq, Eq, Structural)]
pub enum Method {
    Get,
    Post,
    Put,
}

/// What a request carries.
#[derive(Debug, Clone, Copy, PartialEq, Eq, Structural)]
pub enum Body {
    /// Nothing.
    Empty,
    /// A value in JSON, with the content type of JSON.
    Json,
    /// Bytes as they are.
    Bytes,
    /// A tar archive, compressed with gzip while it is sent.
    Archive,
}

/// A request to send.
#[derive(Debug)]
pub struct Request {
    pub method: Method,
    pub url: String,
    pub headers: Vec<(String, String)>,
    pub query: Vec<(String, String)>,
    pub body: Body,
}

/// A [`Request`] with its text as characters.
pub struct RequestView {
    pub method: Method,
    pub url: Seq<char>,
    pub headers: Seq<(Seq<char>, Seq<char>)>,
    pub query: Seq<(Seq<char>, Seq<char>)>,
    pub body: Body,
}

impl View for Request {
    type V = RequestView;

    open spec fn view(&self) -> RequestView {
        RequestView {
            method: self.method,
            url: self.url@,
            headers: self.headers.deep_view(),
            query: self.query.deep_view(),
            body: self.body,
        }
    }
}

/// A request, and how its answer is taken.
#[derive(Debug)]
pub struct Exchange {
    pub request: Request,
    /// What the request is called in the message of a rejection.
    pub operation: String,
    /// What taking the content of the answer is called in the message of its
    /// failure, where the content is taken as a whole.
    pub reading: Option<String>,
    /// Whether an answer that there is no such thing is an answer, not an
    /// error.
    pub may_be_absent: bool,
}

/// An [`Exchange`] with its text as characters.
pub struct ExchangeView {
    pub request: RequestView,
    pub operation: Seq<char>,
    pub reading: Option<Seq<char>>,
    pub may_be_absent: bool,
}

impl View for Exchange {
    type V = ExchangeView;

    open spec fn view(&self) -> ExchangeView {
        ExchangeView {
            request: self.request@,
            operation: self.operation@,
            reading: self.reading.deep_view(),
            may_be_absent: self.may_be_absent,
        }
    }
}

/// What an answer says by its status.
#[derive(Debug, Clone, Copy, PartialEq, Eq, Structural)]
pub enum Verdict {
    /// The request was granted; the content of the answer is what was asked for.
    Granted,
    /// There is no such thing.
    Absent,
    /// The request was rejected; the content of the answer may say why.
    Rejected,
}

/// Whether `status` is one of success.
pub open spec fn is_success(status: u16) -> bool {
    200 <= status < 300
}

/// What an answer with `status` says.
pub open spec fn verdict_of(status: u16, may_be_absent: bool) -> Verdict {
    if may_be_absent && status == 404 {
        Verdict::Absent
    } else if is_success(status) {
        Verdict::Granted
    } else {
        Verdict::Rejected
    }
}

/// The failure of a rejected request: the error in the answer, where the answer
/// carries one.
pub open spec fn rejection(operation: Seq<char>, error: Option<Seq<char>>) -> FailureView {
    plainly(
        operation + ": "@ + match error {
            Some(error) => error,
            None => "unknown error"@,
        },
    )
}

/// The failure of a request to `url` that could not be sent.
pub open spec fn unsent(url: Seq<char>, cause: Seq<char>) -> FailureView {
    because("sending request to "@ + url, cause)
}

impl Exchange {
    /// What an answer with `status` says.
    pub fn verdict(&self, status: u16) -> (r: Verdict)
        ensures
            r == verdict_of(status, self@.may_be_absent),
            r == Verdict::Absent <==> self.may_be_absent && status == 404,
            r == Verdict::Granted <==> 200 <= status <= 299,
    {
        if self.may_be_absent && status == 404 {
            Verdict::Absent
        } else if 200 <= status && status < 300 {
            Verdict::Granted
        } else {
            Verdict::Rejected
        }
    }

    /// The failure of a rejected request, with the error that the answer carries.
    pub fn rejected(&self, error: Option<String>) -> (r: Failure)
        ensures
            r@ == rejection(self@.operation, error.deep_view()),
    {
        let mut message = self.operation.clone();
        message.append(": ");
        match error {
            Some(error) => message.append(error.as_str()),
            None => message.append("unknown error"),
        }
        Failure::plain(message)
    }

    /// The failure of a request that could not be sent.
    pub fn unsent(&self, cause: String) -> (r: Failure)
        ensures
            r@ == unsent(self@.request.url, cause@),
    {
        Failure::new(joined("sending request to ", self.request.url.as_str()).as_str(), cause)
    }

    /// The failure of an answer whose content could not be taken.
    pub fn unreadable(&self, cause: String) -> (r: Failure)
        ensures
            r@ == match self@.reading {
                Some(reading) => because(reading, cause@),
                None => plainly(cause@),
            },
    {
        match &self.reading {
            Some(reading) => Failure::new(reading.as_str(), cause),
            None => Failure::plain(cause),
        }
    }
}

/// The client of one server.
#[derive(Debug)]
pub struct PodClient {
    url: String,
    token: String,
}

/// A [`PodClient`]: the address of the server, without separators at its end,
/// and the token that the server asks for.
pub struct ClientView {
    pub url: Seq<char>,
    pub token: Seq<char>,
}

impl View for PodClient {
    type V = ClientView;

    closed spec fn view(&self) -> ClientView {
        ClientView { url: self.url@, token: self.token@ }
    }
}

/// The header that every request carries.
pub open spec fn authorization(client: ClientView) -> (Seq<char>, Seq<char>) {
    ("Authorization"@, "Bearer "@ + client.token)
}

/// The request of `client` for `path` that carries `headers` behind the
/// authorization.
pub open spec fn request_for(
    client: ClientView,
    method: Method,
    path: Seq<char>,
    headers: Seq<(Seq<char>, Seq<char>)>,
    query: Seq<(Seq<char>, Seq<char>)>,
    body: Body,
) -> RequestView {
    RequestView {
        method,
        url: client.url + path,
        headers: seq![authorization(client)] + headers,
        query,
        body,
    }
}

/// The headers of a compressed archive.
pub open spec fn archive_headers() -> Seq<(Seq<char>, Seq<char>)> {
    seq![("Content-Type"@, "application/x-tar"@), ("Content-Encoding"@, "gzip"@)]
}

/// A flag as text.
pub open spec fn flag_text(flag: bool) -> Seq<char> {
    if flag {
        "true"@
    } else {
        "false"@
    }
}

fn flag(value: bool) -> (r: String)
    ensures
        r@ == flag_text(value),
{
    if value {
        "true".to_owned()
    } else {
        "false".to_owned()
    }
}

fn pair(name: &str, value: &str) -> (r: (String, String))
    ensures
        r.deep_view() == (name@, value@),
{
    (name.to_owned(), value.to_owned())
}

fn joined(first: &str, second: &str) -> (r: String)
    ensures
        r@ == first@ + second@,
{
    first.to_owned().concat(second)
}

/// Why the content of a file cannot be told.
#[derive(Debug)]
pub enum ContentError {
    /// The text in the answer is not Base64.
    NotBase64(base64::DecodeError),
}

/// The content of a file, by what decoding its text gave.
pub fn content_of(decoded: Result<Vec<u8>, base64::DecodeError>) -> (r: Result<
    Vec<u8>,
    ContentError,
>)
    ensures
        match decoded {
            Ok(bytes) => r == Ok::<Vec<u8>, ContentError>(bytes),
            Err(cause) => r == Err::<Vec<u8>, ContentError>(ContentError::NotBase64(cause)),
        },
{
    match decoded {
        Ok(bytes) => Ok(bytes),
        Err(cause) => Err(ContentError::NotBase64(cause)),
    }
}

/// A command to run in the container.
#[derive(Debug)]
pub struct RunRequest {
    pub cmd: Vec<String>,
    pub workdir: Option<String>,
    pub env: Vec<String>,
    /// The input of the command, in Base64.
    pub stdin: Option<String>,
    pub timeout_secs: Option<u64>,
}

impl PodClient {
    /// The client of the server at `url`, where `url` may end in separators.
    pub fn new(url: &str, token: &str) -> (r: PodClient)
        ensures
            r@ == (ClientView { url: trimmed_end_of(url@, '/'), token: token@ }),
    {
        PodClient { url: trim_end_of(url, '/').to_owned(), token: token.to_owned() }
    }

    /// The address of the server.
    pub fn url(&self) -> (r: &str)
        ensures
            r@ == self@.url,
    {
        self.url.as_str()
    }

    fn request(
        &self,
        method: Method,
        path: &str,
        headers: Vec<(String, String)>,
        query: Vec<(String, String)>,
        body: Body,
    ) -> (r: Request)
        ensures
            r@ == request_for(
                self@,
                method,
                path@,
                headers.deep_view(),
                query.deep_view(),
                body,
            ),
    {
        let mut all: Vec<(String, String)> = Vec::new();
        all.push(pair("Authorization", joined("Bearer ", self.token.as_str()).as_str()));
        let ghost given = headers.deep_view();
        let mut rest = headers;
        all.append(&mut rest);
        let r = Request {
            method,
            url: joined(self.url.as_str(), path),
            headers: all,
            query,
            body,
        };
        assert(r@.headers =~= seq![authorization(self@)] + given);
        r
    }

    fn no_pairs() -> (r: Vec<(String, String)>)
        ensures
            r.deep_view() == Seq::<(Seq<char>, Seq<char>)>::empty(),
    {
        let r: Vec<(String, String)> = Vec::new();
        assert(r.deep_view() =~= Seq::<(Seq<char>, Seq<char>)>::empty());
        r
    }

    fn archive_pairs() -> (r: Vec<(String, String)>)
        ensures
            r.deep_view() == archive_headers(),
    {
        let mut r: Vec<(String, String)> = Vec::new();
        r.push(pair("Content-Type", "application/x-tar"));
        r.push(pair("Content-Encoding", "gzip"));
        assert(r.deep_view() =~= archive_headers());
        r
    }

    /// GET /events: the stream that starts with the greeting.
    pub fn events(&self) -> (r: Request)
        ensures
            r@ == request_for(self@, Method::Get, "/events"@, seq![], seq![], Body::Empty),
    {
        self.request(Method::Get, "/events", Self::no_pairs(), Self::no_pairs(), Body::Empty)
    }

    /// POST of a JSON value to `path`, answered with a JSON value.
    pub fn post(&self, path: &str) -> (r: Exchange)
        ensures
            r@ == (ExchangeView {
                request: request_for(self@, Method::Post, path@, seq![], seq![], Body::Json),
                operation: path@,
                reading: Some("parsing response from "@ + path@),
                may_be_absent: false,
            }),
    {
        Exchange {
            request: self.request(
                Method::Post,
                path,
                Self::no_pairs(),
                Self::no_pairs(),
                Body::Json,
            ),
            operation: path.to_owned(),
            reading: Some(joined("parsing response from ", path)),
            may_be_absent: false,
        }
    }

    /// Write files below the home directory of the container's user.
    pub fn write_home_files(&self) -> (r: Exchange)
        ensures
            r@ == (ExchangeView {
                request: request_for(
                    self@,
                    Method::Post,
                    "/write-home-files"@,
                    seq![],
                    seq![],
                    Body::Json,
                ),
                operation: "/write-home-files"@,
                reading: Some("parsing response from "@ + "/write-home-files"@),
                may_be_absent: false,
            }),
    {
        self.post("/write-home-files")
    }

    /// Read a file in the container.
    pub fn fs_read(&self) -> (r: Exchange)
        ensures
            r@ == (ExchangeView {
                request: request_for(self@, Method::Post, "/fs/read"@, seq![], seq![], Body::Json),
                operation: "/fs/read"@,
                reading: Some("parsing response from "@ + "/fs/read"@),
                may_be_absent: false,
            }),
    {
        self.post("/fs/read")
    }

    /// The content of a file, by the Base64 text in the answer to
    /// [`PodClient::fs_read`].
    pub fn fs_read_content(content: &str) -> (r: Result<Vec<u8>, ContentError>)
        ensures
            r is Ok <==> base64_bytes(content@) is Some,
            r is Ok ==> base64_bytes(content@) == Some(r->Ok_0@),
            forall|bytes: Seq<u8>|
                is_encodable(bytes.len()) && content@ == #[trigger] base64_text(bytes) ==> r is Ok
                    && r->Ok_0@ == bytes,
    {
        content_of(base64_decode(content))
    }

    /// GET /git/patch: the patch of a dirty working tree. An empty answer means
    /// that the tree is clean.
    pub fn git_patch_get(&self) -> (r: Exchange)
        ensures
            r@ == (ExchangeView {
                request: request_for(self@, Method::Get, "/git/patch"@, seq![], seq![], Body::Empty),
                operation: "GET /git/patch"@,
                reading: Some("reading /git/patch body"@),
                may_be_absent: false,
            }),
    {
        Exchange {
            request: self.request(
                Method::Get,
                "/git/patch",
                Self::no_pairs(),
                Self::no_pairs(),
                Body::Empty,
            ),
            operation: "GET /git/patch".to_owned(),
            reading: Some("reading /git/patch body".to_owned()),
            may_be_absent: false,
        }
    }

    /// GET /agent-files/`agent`: the agent's state as a tar stream. An agent
    /// without state to transfer is answered by absence.
    pub fn get_agent_files(&self, agent: &str) -> (r: Exchange)
        ensures
            r@ == (ExchangeView {
                request: request_for(
                    self@,
                    Method::Get,
                    "/agent-files/"@ + agent@,
                    seq![],
                    seq![],
                    Body::Empty,
                ),
                operation: "GET /agent-files/"@ + agent@,
                reading: None,
                may_be_absent: true,
            }),
    {
        Exchange {
            request: self.request(
                Method::Get,
                joined("/agent-files/", agent).as_str(),
                Self::no_pairs(),
                Self::no_pairs(),
                Body::Empty,
            ),
            operation: joined("GET /agent-files/", agent),
            reading: None,
            may_be_absent: true,
        }
    }

    /// PUT /agent-files/`agent`: an archive to extract. `permission_hook` only
    /// affects the hook for permission requests; without it the uploaded
    /// settings keep theirs.
    pub fn put_agent_files(&self, agent: &str, permission_hook: Option<bool>) -> (r: Exchange)
        ensures
            r@ == (ExchangeView {
                request: request_for(
                    self@,
                    Method::Put,
                    "/agent-files/"@ + agent@,
                    archive_headers(),
                    match permission_hook {
                        Some(hook) => seq![("permission_hook"@, flag_text(hook))],
                        None => seq![],
                    },
                    Body::Archive,
                ),
                operation: "PUT /agent-files/"@ + agent@,
                reading: None,
                may_be_absent: false,
            }),
    {
        let mut query: Vec<(String, String)> = Vec::new();
        match permission_hook {
            Some(hook) => {
                query.push(pair("permission_hook", flag(hook).as_str()));
            },
            None => {},
        }
        assert(query.deep_view() =~= match permission_hook {
            Some(hook) => seq![("permission_hook"@, flag_text(hook))],
            None => seq![],
        });
        Exchange {
            request: self.request(
                Method::Put,
                joined("/agent-files/", agent).as_str(),
                Self::archive_pairs(),
                query,
                Body::Archive,
            ),
            operation: joined("PUT /agent-files/", agent),
            reading: None,
            may_be_absent: false,
        }
    }

    /// GET /container-env: the configured environment with its current values.
    pub fn get_container_env(&self) -> (r: Exchange)
        ensures
            r@ == (ExchangeView {
                request: request_for(
                    self@,
                    Method::Get,
                    "/container-env"@,
                    seq![],
                    seq![],
                    Body::Empty,
                ),
                operation: "GET /container-env"@,
                reading: Some("parsing /container-env response"@),
                may_be_absent: false,
            }),
    {
        Exchange {
            request: self.request(
                Method::Get,
                "/container-env",
                Self::no_pairs(),
                Self::no_pairs(),
                Body::Empty,
            ),
            operation: "GET /container-env".to_owned(),
            reading: Some("parsing /container-env response".to_owned()),
            may_be_absent: false,
        }
    }

    /// GET /state: what a fork needs to know of a pod.
    pub fn get_state(&self) -> (r: Exchange)
        ensures
            r@ == (ExchangeView {
                request: request_for(self@, Method::Get, "/state"@, seq![], seq![], Body::Empty),
                operation: "GET /state"@,
                reading: Some("parsing /state response"@),
                may_be_absent: false,
            }),
    {
        Exchange {
            request: self.request(
                Method::Get,
                "/state",
                Self::no_pairs(),
                Self::no_pairs(),
                Body::Empty,
            ),
            operation: "GET /state".to_owned(),
            reading: Some("parsing /state response".to_owned()),
            may_be_absent: false,
        }
    }

    /// POST /git/push: push every local branch to the host.
    pub fn git_push(&self) -> (r: Exchange)
        ensures
            r@ == (ExchangeView {
                request: request_for(self@, Method::Post, "/git/push"@, seq![], seq![], Body::Empty),
                operation: "POST /git/push"@,
                reading: None,
                may_be_absent: false,
            }),
    {
        Exchange {
            request: self.request(
                Method::Post,
                "/git/push",
                Self::no_pairs(),
                Self::no_pairs(),
                Body::Empty,
            ),
            operation: "POST /git/push".to_owned(),
            reading: None,
            may_be_absent: false,
        }
    }

    /// POST /git/patch: apply a patch that [`PodClient::git_patch_get`] got.
    pub fn git_patch_apply(&self) -> (r: Exchange)
        ensures
            r@ == (ExchangeView {
                request: request_for(
                    self@,
                    Method::Post,
                    "/git/patch"@,
                    seq![("Content-Type"@, "application/octet-stream"@)],
                    seq![],
                    Body::Bytes,
                ),
                operation: "POST /git/patch"@,
                reading: None,
                may_be_absent: false,
            }),
    {
        let mut headers: Vec<(String, String)> = Vec::new();
        headers.push(pair("Content-Type", "application/octet-stream"));
        assert(headers.deep_view() =~= seq![("Content-Type"@, "application/octet-stream"@)]);
        Exchange {
            request: self.request(
                Method::Post,
                "/git/patch",
                headers,
                Self::no_pairs(),
                Body::Bytes,
            ),
            operation: "POST /git/patch".to_owned(),
            reading: None,
            may_be_absent: false,
        }
    }

    /// GET /cp: a file or directory of the container as a tar stream.
    pub fn cp_download(&self, path: &str, follow_symlinks: bool) -> (r: Exchange)
        ensures
            r@ == (ExchangeView {
                request: request_for(
                    self@,
                    Method::Get,
                    "/cp"@,
                    seq![],
                    seq![("path"@, path@), ("follow_symlinks"@, flag_text(follow_symlinks))],
                    Body::Empty,
                ),
                operation: "GET /cp"@,
                reading: None,
                may_be_absent: false,
            }),
    {
        let mut query: Vec<(String, String)> = Vec::new();
        query.push(pair("path", path));
        query.push(pair("follow_symlinks", flag(follow_symlinks).as_str()));
        assert(query.deep_view() =~= seq![
            ("path"@, path@),
            ("follow_symlinks"@, flag_text(follow_symlinks)),
        ]);
        Exchange {
            request: self.request(Method::Get, "/cp", Self::no_pairs(), query, Body::Empty),
            operation: "GET /cp".to_owned(),
            reading: None,
            may_be_absent: false,
        }
    }

    /// POST /cp: an archive to extract at `path` in the container.
    pub fn cp_upload(&self, path: &str) -> (r: Exchange)
        ensures
            r@ == (ExchangeView {
                request: request_for(
                    self@,
                    Method::Post,
                    "/cp"@,
                    archive_headers().push(("X-Path"@, path@)),
                    seq![],
                    Body::Archive,
                ),
                operation: "POST /cp"@,
                reading: None,
                may_be_absent: false,
            }),
    {
        let mut headers = Self::archive_pairs();
        headers.push(pair("X-Path", path));
        assert(headers.deep_view() =~= archive_headers().push(("X-Path"@, path@)));
        Exchange {
            request: self.request(Method::Post, "/cp", headers, Self::no_pairs(), Body::Archive),
            operation: "POST /cp".to_owned(),
            reading: None,
            may_be_absent: false,
        }
    }

    /// POST /init-mounts: an archive for the targets of bind mounts.
    pub fn init_mounts(&self) -> (r: Exchange)
        ensures
            r@ == (ExchangeView {
                request: request_for(
                    self@,
                    Method::Post,
                    "/init-mounts"@,
                    archive_headers(),
                    seq![],
                    Body::Archive,
                ),
                operation: "POST /init-mounts"@,
                reading: None,
                may_be_absent: false,
            }),
    {
        Exchange {
            request: self.request(
                Method::Post,
                "/init-mounts",
                Self::archive_pairs(),
                Self::no_pairs(),
                Body::Archive,
            ),
            operation: "POST /init-mounts".to_owned(),
            reading: None,
            may_be_absent: false,
        }
    }

    /// Run a command in the container: the exchange, and the value that it
    /// carries. The command's input is sent in Base64.
    pub fn run(
        &self,
        cmd: &[&str],
        workdir: Option<&str>,
        env: &[String],
        stdin: Option<&[u8]>,
        timeout_secs: Option<u64>,
    ) -> (r: (Exchange, RunRequest))
        requires
            stdin is Some ==> is_encodable(stdin->0@.len()),
        ensures
            r.0@ == (ExchangeView {
                request: request_for(self@, Method::Post, "/run"@, seq![], seq![], Body::Json),
                operation: "/run"@,
                reading: Some("parsing response from "@ + "/run"@),
                may_be_absent: false,
            }),
            r.1.cmd.deep_view() == cmd.deep_view(),
            r.1.env.deep_view() == env.deep_view(),
            match workdir {
                Some(path) => r.1.workdir is Some && r.1.workdir->0@ == path@,
                None => r.1.workdir is None,
            },
            match stdin {
                Some(bytes) => r.1.stdin is Some && r.1.stdin->0@ == base64_text(bytes@)
                    && base64_bytes(r.1.stdin->0@) == Some(bytes@),
                None => r.1.stdin is None,
            },
            r.1.timeout_secs == timeout_secs,
    {
        let mut words: Vec<String> = Vec::new();
        let mut i: usize = 0;
        while i < cmd.len()
            invariant
                i <= cmd@.len(),
                words.deep_view() == cmd.deep_view().take(i as int),
            decreases cmd.len() - i,
        {
            let ghost before = words.deep_view();
            words.push(cmd[i].to_owned());
            assert(words.deep_view() =~= before.push(cmd@[i as int]@));
            assert(cmd.deep_view()[i as int] == cmd@[i as int]@);
            assert(cmd.deep_view().take(i + 1) =~= cmd.deep_view().take(i as int).push(
                cmd.deep_view()[i as int],
            ));
            i += 1;
        }
        assert(cmd.deep_view().take(cmd@.len() as int) == cmd.deep_view());
        let mut variables: Vec<String> = Vec::new();
        let mut j: usize = 0;
        while j < env.len()
            invariant
                j <= env@.len(),
                variables.deep_view() == env.deep_view().take(j as int),
            decreases env.len() - j,
        {
            let ghost before = variables.deep_view();
            variables.push(env[j].clone());
            assert(variables.deep_view() =~= before.push(env@[j as int]@));
            assert(env.deep_view()[j as int] == env@[j as int]@);
            assert(env.deep_view().take(j + 1) =~= env.deep_view().take(j as int).push(
                env.deep_view()[j as int],
            ));
            j += 1;
        }
        assert(env.deep_view().take(env@.len() as int) == env.deep_view());
        let payload = RunRequest {
            cmd: words,
            workdir: match workdir {
                Some(path) => Some(path.to_owned()),
                None => None,
            },
            env: variables,
            stdin: match stdin {
                Some(bytes) => Some(base64_encode(bytes)),
                None => None,
            },
            timeout_secs,
        };
        (self.post("/run"), payload)
    }
}

/// However many separators an address ends with, the client uses the address
/// without them: it does not end with a separator, and the paths of requests
/// are put behind it as they are.
pub proof fn law_address_ends_without_separator(url: Seq<char>)
    ensures
        trimmed_end_of(url, '/').len() > 0 ==> trimmed_end_of(url, '/').last() != '/',
        trimmed_end_of(url.push('/'), '/') == trimmed_end_of(url, '/'),
        trimmed_end_of(url, '/').is_prefix_of(url),
        forall|i: int|
            trimmed_end_of(url, '/').len() <= i < url.len() ==> #[trigger] url[i] == '/',
{
    lemma_trimmed_end_of(url, '/');
    assert(url.push('/').drop_last() == url);
}

/// Every request is authorized with the client's token and goes to the
/// client's server.
pub proof fn law_requests_are_authorized(
    client: ClientView,
    method: Method,
    path: Seq<char>,
    headers: Seq<(Seq<char>, Seq<char>)>,
    query: Seq<(Seq<char>, Seq<char>)>,
    body: Body,
)
    ensures
        request_for(client, method, path, headers, query, body).headers.contains(
            authorization(client),
        ),
        client.url.is_prefix_of(request_for(client, method, path, headers, query, body).url),
{
    let request = request_for(client, method, path, headers, query, body);
    assert(request.headers[0] == authorization(client));
}

/// An answer says absence exactly if absence is an answer to the exchange and the
/// status is 404; it is granted exactly for the statuses from 200 to 299; and
/// every other answer is a rejection.
pub proof fn law_statuses_are_told_apart(status: u16, may_be_absent: bool)
    ensures
        verdict_of(status, may_be_absent) == Verdict::Absent <==> may_be_absent && status == 404,
        verdict_of(status, may_be_absent) == Verdict::Granted <==> 200 <= status <= 299,
        verdict_of(status, may_be_absent) == Verdict::Rejected <==> !(200 <= status <= 299) && !(
        may_be_absent && status == 404),
        is_success(status) <==> 200 <= status <= 299,
{
}

/// A rejection is told with the whole operation and the whole error of the
/// answer, or that the error is unknown where the answer has none; and it goes
/// back to nothing else.
pub proof fn law_rejections_tell_operation_and_error(operation: Seq<char>, error: Seq<char>)
    ensures
        ({
            let told = rejection(operation, Some(error));
            &&& told.cause is None
            &&& told.message.take(operation.len() as int) == operation
            &&& told.message.skip(operation.len() as int) == ": "@ + error
            &&& rejection(operation, None) == rejection(operation, Some("unknown error"@))
        }),
{
    let told = rejection(operation, Some(error));
    assert(told.message.take(operation.len() as int) =~= operation);
    assert(told.message.skip(operation.len() as int) =~= ": "@ + error);
}

/// A request that could not be sent is told with its whole address, and goes back
/// to the whole cause.
pub proof fn law_unsent_requests_tell_address_and_cause(url: Seq<char>, cause: Seq<char>)
    ensures
        ({
            let front = "sending request to "@;
            &&& front.is_prefix_of(unsent(url, cause).message)
            &&& unsent(url, cause).message.skip(front.len() as int) == url
            &&& unsent(url, cause).cause == Some(cause)
        }),
{
    let front = "sending request to "@;
    assert(unsent(url, cause).message.take(front.len() as int) =~= front);
    assert(unsent(url, cause).message.skip(front.len() as int) =~= url);
}

/// A request goes to the server's address with the whole path behind it, is
/// authorized first of all with the whole token, and carries the headers, the
/// query and the body that it was made with, and nothing else.
pub proof fn law_requests_carry_what_they_were_made_with(
    client: ClientView,
    method: Method,
    path: Seq<char>,
    headers: Seq<(Seq<char>, Seq<char>)>,
    query: Seq<(Seq<char>, Seq<char>)>,
    body: Body,
)
    ensures
        ({
            let request = request_for(client, method, path, headers, query, body);
            let front = "Bearer "@;
            &&& request.url.take(client.url.len() as int) == client.url
            &&& request.url.skip(client.url.len() as int) == path
            &&& request.headers.len() == headers.len() + 1
            &&& request.headers[0].0 == "Authorization"@
            &&& front.is_prefix_of(request.headers[0].1)
            &&& request.headers[0].1.skip(front.len() as int) == client.token
            &&& request.headers.drop_first() == headers
            &&& request.query == query
            &&& request.method == method
            &&& request.body == body
        }),
{
    let request = request_for(client, method, path, headers, query, body);
    let front = "Bearer "@;
    assert(request.url.take(client.url.len() as int) =~= client.url);
    assert(request.url.skip(client.url.len() as int) =~= path);
    assert(request.headers[0].1.take(front.len() as int) =~= front);
    assert(request.headers[0].1.skip(front.len() as int) =~= client.token);
    assert(request.headers.drop_first() =~= headers);
}

/// An archive is announced as a tar archive that is compressed with gzip, and a
/// flag is written as what it is.
pub proof fn law_archives_and_flags_are_announced()
    ensures
        archive_headers().len() == 2,
        archive_headers().contains(("Content-Type"@, "application/x-tar"@)),
        archive_headers().contains(("Content-Encoding"@, "gzip"@)),
        forall|flag: bool| #[trigger] flag_text(flag) == (if flag {
            "true"@
        } else {
            "false"@
        }),
{
    assert(archive_headers()[0] == ("Content-Type"@, "application/x-tar"@));
    assert(archive_headers()[1] == ("Content-Encoding"@, "gzip"@));
}

/// Requests and exchanges are viewed with all that they hold.
pub proof fn law_exchanges_are_viewed_whole(exchange: Exchange)
    ensures
        exchange@.request.method == exchange.request.method,
        exchange@.request.url == exchange.request.url@,
        exchange@.request.headers.len() == exchange.request.headers@.len(),
        forall|i: int|
            0 <= i < exchange.request.headers@.len() ==> #[trigger] exchange@.request.headers[i] == (
                exchange.request.headers@[i].0@,
                exchange.request.headers@[i].1@,
            ),
        exchange@.request.query.len() == exchange.request.query@.len(),
        forall|i: int|
            0 <= i < exchange.request.query@.len() ==> #[trigger] exchange@.request.query[i] == (
                exchange.request.query@[i].0@,
                exchange.request.query@[i].1@,
            ),
        exchange@.request.body == exchange.request.body,
        exchange@.operation == exchange.operation@,
        exchange.reading is None <==> exchange@.reading is None,
        exchange.reading is Some ==> exchange@.reading == Some(exchange.reading->0@),
        exchange@.may_be_absent == exchange.may_be_absent,
{
}

/// A client keeps its token as it is, and its address but for the separators at the
/// end; the address it tells is the one it uses.
pub proof fn law_clients_keep_address_and_token(
    url: &str,
    token: &str,
    client: PodClient,
    told: &str,
)
    requires
        call_ensures(PodClient::new, (url, token), client),
        call_ensures(PodClient::url, (&client,), told),
    ensures
        client@.token == token@,
        client@.url.is_prefix_of(url@),
        client@.url.len() > 0 ==> client@.url.last() != '/',
        forall|i: int| client@.url.len() <= i < url@.len() ==> #[trigger] url@[i] == '/',
        told@ == client@.url,
{
    lemma_trimmed_end_of(url@, '/');
}

/// Every answer is taken by its status alone: absence where it is an answer and the
/// status is 404, success from 200 to 299, and rejection else.
pub proof fn law_verdicts_follow_the_status(exchange: &Exchange, status: u16, verdict: Verdict)
    requires
        call_ensures(Exchange::verdict, (exchange, status), verdict),
    ensures
        verdict == Verdict::Absent <==> exchange.may_be_absent && status == 404,
        verdict == Verdict::Granted <==> 200 <= status <= 299,
        verdict == Verdict::Rejected <==> !(200 <= status <= 299) && !(exchange.may_be_absent
            && status == 404),
{
}

/// A rejected request, one that was not sent and an answer that cannot be taken are
/// told with the operation, the address or what was being taken, and with the whole
/// error or cause.
pub proof fn law_failed_exchanges_are_told(
    exchange: &Exchange,
    error: Option<String>,
    cause: String,
    rejected: Failure,
    unsent: Failure,
    unreadable: Failure,
)
    requires
        call_ensures(Exchange::rejected, (exchange, error), rejected),
        call_ensures(Exchange::unsent, (exchange, cause), unsent),
        call_ensures(Exchange::unreadable, (exchange, cause), unreadable),
    ensures
        rejected@.cause is None,
        error is Some ==> rejected@.message == exchange.operation@ + ": "@ + error->0@,
        error is None ==> rejected@.message == exchange.operation@ + ": "@ + "unknown error"@,
        unsent@.message == "sending request to "@ + exchange.request.url@,
        unsent@.cause == Some(cause@),
        exchange.reading is Some ==> unreadable@.message == exchange.reading->0@
            && unreadable@.cause == Some(cause@),
        exchange.reading is None ==> unreadable@.message == cause@ && unreadable@.cause is None,
{
}

/// Whether `request` goes to `path` at the server of `client`, and is authorized
/// with the client's token.
pub open spec fn goes_to(
    client: ClientView,
    request: Request,
    method: Method,
    path: Seq<char>,
) -> bool {
    &&& request.method == method
    &&& request.url@ == client.url + path
    &&& request.headers@.len() > 0
    &&& request.headers@[0].0@ == "Authorization"@
    &&& request.headers@[0].1@ == "Bearer "@ + client.token
}

/// Whether `request` announces a tar archive that is compressed with gzip.
pub open spec fn announces_archive(request: Request) -> bool {
    &&& request.body == Body::Archive
    &&& request.headers@.len() > 2
    &&& request.headers@[1].0@ == "Content-Type"@
    &&& request.headers@[1].1@ == "application/x-tar"@
    &&& request.headers@[2].0@ == "Content-Encoding"@
    &&& request.headers@[2].1@ == "gzip"@
}

proof fn lemma_request(
    request: Request,
    client: ClientView,
    method: Method,
    path: Seq<char>,
    headers: Seq<(Seq<char>, Seq<char>)>,
    query: Seq<(Seq<char>, Seq<char>)>,
    body: Body,
)
    requires
        request@ == request_for(client, method, path, headers, query, body),
    ensures
        goes_to(client, request, method, path),
        request.body == body,
        request.headers@.len() == headers.len() + 1,
        forall|i: int|
            0 <= i < headers.len() ==> #[trigger] headers[i] == (
                request.headers@[i + 1].0@,
                request.headers@[i + 1].1@,
            ),
        request.query@.len() == query.len(),
        forall|i: int|
            0 <= i < query.len() ==> #[trigger] query[i] == (
                request.query@[i].0@,
                request.query@[i].1@,
            ),
{
    let made = request_for(client, method, path, headers, query, body);
    assert(request@.headers.len() == request.headers@.len());
    assert(made.headers[0] == (request.headers@[0].0@, request.headers@[0].1@));
    assert forall|i: int| 0 <= i < headers.len() implies #[trigger] headers[i] == (
        request.headers@[i + 1].0@,
        request.headers@[i + 1].1@,
    ) by {
        assert(made.headers[i + 1] == headers[i]);
        assert(request@.headers[i + 1] == (
            request.headers@[i + 1].0@,
            request.headers@[i + 1].1@,
        ));
    }
    assert(request@.query.len() == request.query@.len());
    assert forall|i: int| 0 <= i < query.len() implies #[trigger] query[i] == (
        request.query@[i].0@,
        request.query@[i].1@,
    ) by {
        assert(request@.query[i] == (request.query@[i].0@, request.query@[i].1@));
    }
}

/// A value is posted to the whole path, with nothing but the authorization beside
/// it, and its failures name that path.
pub proof fn law_values_are_posted_to_their_path(
    client: &PodClient,
    path: &str,
    exchange: Exchange,
)
    requires
        call_ensures(PodClient::post, (client, path), exchange),
    ensures
        goes_to(client@, exchange.request, Method::Post, path@),
        exchange.request.body == Body::Json,
        exchange.request.headers@.len() == 1,
        exchange.request.query@.len() == 0,
        exchange.operation@ == path@,
        exchange.reading is Some && exchange.reading->0@ == "parsing response from "@ + path@,
        !exchange.may_be_absent,
{
    lemma_request(exchange.request, client@, Method::Post, path@, seq![], seq![], Body::Json);
}

/// The files of an agent are asked for under its whole name, and an agent without
/// files is answered by absence, of all exchanges here alone.
pub proof fn law_agent_files_are_asked_for_by_name(
    client: &PodClient,
    agent: &str,
    exchange: Exchange,
)
    requires
        call_ensures(PodClient::get_agent_files, (client, agent), exchange),
    ensures
        goes_to(client@, exchange.request, Method::Get, "/agent-files/"@ + agent@),
        exchange.request.body == Body::Empty,
        exchange.request.headers@.len() == 1,
        exchange.request.query@.len() == 0,
        exchange.operation@ == "GET /agent-files/"@ + agent@,
        exchange.reading is None,
        exchange.may_be_absent,
{
    lemma_request(
        exchange.request,
        client@,
        Method::Get,
        "/agent-files/"@ + agent@,
        seq![],
        seq![],
        Body::Empty,
    );
}

/// The files of an agent are sent as an archive under its whole name. The hook is
/// spoken of exactly if it is given, as what it is.
pub proof fn law_agent_files_are_sent_by_name(
    client: &PodClient,
    agent: &str,
    permission_hook: Option<bool>,
    exchange: Exchange,
)
    requires
        call_ensures(PodClient::put_agent_files, (client, agent, permission_hook), exchange),
    ensures
        goes_to(client@, exchange.request, Method::Put, "/agent-files/"@ + agent@),
        announces_archive(exchange.request),
        exchange.request.headers@.len() == 3,
        permission_hook is None ==> exchange.request.query@.len() == 0,
        permission_hook is Some ==> {
            &&& exchange.request.query@.len() == 1
            &&& exchange.request.query@[0].0@ == "permission_hook"@
            &&& exchange.request.query@[0].1@ == if permission_hook->0 {
                "true"@
            } else {
                "false"@
            }
        },
        exchange.operation@ == "PUT /agent-files/"@ + agent@,
        exchange.reading is None,
        !exchange.may_be_absent,
{
    let query = match permission_hook {
        Some(hook) => seq![("permission_hook"@, flag_text(hook))],
        None => seq![],
    };
    lemma_request(
        exchange.request,
        client@,
        Method::Put,
        "/agent-files/"@ + agent@,
        archive_headers(),
        query,
        Body::Archive,
    );
    assert(archive_headers()[0] == ("Content-Type"@, "application/x-tar"@));
    assert(archive_headers()[1] == ("Content-Encoding"@, "gzip"@));
    if permission_hook is Some {
        assert(query[0] == ("permission_hook"@, flag_text(permission_hook->0)));
    }
}

/// A file is copied out by its whole path, with links followed exactly if that is
/// asked for.
pub proof fn law_downloads_name_their_path(
    client: &PodClient,
    path: &str,
    follow_symlinks: bool,
    exchange: Exchange,
)
    requires
        call_ensures(PodClient::cp_download, (client, path, follow_symlinks), exchange),
    ensures
        goes_to(client@, exchange.request, Method::Get, "/cp"@),
        exchange.request.body == Body::Empty,
        exchange.request.headers@.len() == 1,
        exchange.request.query@.len() == 2,
        exchange.request.query@[0].0@ == "path"@,
        exchange.request.query@[0].1@ == path@,
        exchange.request.query@[1].0@ == "follow_symlinks"@,
        exchange.request.query@[1].1@ == if follow_symlinks {
            "true"@
        } else {
            "false"@
        },
        exchange.operation@ == "GET /cp"@,
        exchange.reading is None,
        !exchange.may_be_absent,
{
    let query = seq![("path"@, path@), ("follow_symlinks"@, flag_text(follow_symlinks))];
    lemma_request(exchange.request, client@, Method::Get, "/cp"@, seq![], query, Body::Empty);
    assert(query[0] == ("path"@, path@));
    assert(query[1] == ("follow_symlinks"@, flag_text(follow_symlinks)));
}

/// A file is copied in as an archive, to its whole path.
pub proof fn law_copies_name_their_path(client: &PodClient, path: &str, exchange: Exchange)
    requires
        call_ensures(PodClient::cp_upload, (client, path), exchange),
    ensures
        goes_to(client@, exchange.request, Method::Post, "/cp"@),
        announces_archive(exchange.request),
        exchange.request.headers@.len() == 4,
        exchange.request.headers@[3].0@ == "X-Path"@,
        exchange.request.headers@[3].1@ == path@,
        exchange.request.query@.len() == 0,
        exchange.operation@ == "POST /cp"@,
        exchange.reading is None,
        !exchange.may_be_absent,
{
    let headers = archive_headers().push(("X-Path"@, path@));
    lemma_request(exchange.request, client@, Method::Post, "/cp"@, headers, seq![], Body::Archive);
    assert(headers[0] == ("Content-Type"@, "application/x-tar"@));
    assert(headers[1] == ("Content-Encoding"@, "gzip"@));
    assert(headers[2] == ("X-Path"@, path@));
}

/// The exchanges that take nothing go to the path of their own, with the method of
/// their own, whatever the client's address and token.
pub proof fn law_each_operation_has_its_path(
    client: &PodClient,
    events: Request,
    patch: Exchange,
    env: Exchange,
    state: Exchange,
    push: Exchange,
)
    requires
        call_ensures(PodClient::events, (client,), events),
        call_ensures(PodClient::git_patch_get, (client,), patch),
        call_ensures(PodClient::get_container_env, (client,), env),
        call_ensures(PodClient::get_state, (client,), state),
        call_ensures(PodClient::git_push, (client,), push),
    ensures
        goes_to(client@, events, Method::Get, "/events"@),
        events.body == Body::Empty,
        goes_to(client@, patch.request, Method::Get, "/git/patch"@),
        patch.request.body == Body::Empty,
        patch.operation@ == "GET /git/patch"@,
        patch.reading is Some && patch.reading->0@ == "reading /git/patch body"@,
        goes_to(client@, env.request, Method::Get, "/container-env"@),
        env.request.body == Body::Empty,
        env.operation@ == "GET /container-env"@,
        env.reading is Some && env.reading->0@ == "parsing /container-env response"@,
        goes_to(client@, state.request, Method::Get, "/state"@),
        state.request.body == Body::Empty,
        state.operation@ == "GET /state"@,
        state.reading is Some && state.reading->0@ == "parsing /state response"@,
        goes_to(client@, push.request, Method::Post, "/git/push"@),
        push.request.body == Body::Empty,
        push.operation@ == "POST /git/push"@,
        push.reading is None,
        !patch.may_be_absent && !env.may_be_absent && !state.may_be_absent && !push.may_be_absent,
{
    lemma_request(events, client@, Method::Get, "/events"@, seq![], seq![], Body::Empty);
    lemma_request(
        patch.request,
        client@,
        Method::Get,
        "/git/patch"@,
        seq![],
        seq![],
        Body::Empty,
    );
    lemma_request(
        env.request,
        client@,
        Method::Get,
        "/container-env"@,
        seq![],
        seq![],
        Body::Empty,
    );
    lemma_request(state.request, client@, Method::Get, "/state"@, seq![], seq![], Body::Empty);
    lemma_request(push.request, client@, Method::Post, "/git/push"@, seq![], seq![], Body::Empty);
}

/// What is sent into a container without a parameter goes to the path of its own,
/// announced as what it is.
pub proof fn law_each_upload_has_its_path(
    client: &PodClient,
    patch: Exchange,
    mounts: Exchange,
    home: Exchange,
    file: Exchange,
)
    requires
        call_ensures(PodClient::git_patch_apply, (client,), patch),
        call_ensures(PodClient::init_mounts, (client,), mounts),
        call_ensures(PodClient::write_home_files, (client,), home),
        call_ensures(PodClient::fs_read, (client,), file),
    ensures
        goes_to(client@, patch.request, Method::Post, "/git/patch"@),
        patch.request.body == Body::Bytes,
        patch.request.headers@.len() == 2,
        patch.request.headers@[1].0@ == "Content-Type"@,
        patch.request.headers@[1].1@ == "application/octet-stream"@,
        patch.operation@ == "POST /git/patch"@,
        patch.reading is None,
        goes_to(client@, mounts.request, Method::Post, "/init-mounts"@),
        announces_archive(mounts.request),
        mounts.request.headers@.len() == 3,
        mounts.operation@ == "POST /init-mounts"@,
        mounts.reading is None,
        goes_to(client@, home.request, Method::Post, "/write-home-files"@),
        home.request.body == Body::Json,
        home.operation@ == "/write-home-files"@,
        goes_to(client@, file.request, Method::Post, "/fs/read"@),
        file.request.body == Body::Json,
        file.operation@ == "/fs/read"@,
        !patch.may_be_absent && !mounts.may_be_absent && !home.may_be_absent && !file.may_be_absent,
{
    let bytes = seq![("Content-Type"@, "application/octet-stream"@)];
    lemma_request(
        patch.request,
        client@,
        Method::Post,
        "/git/patch"@,
        bytes,
        seq![],
        Body::Bytes,
    );
    assert(bytes[0] == ("Content-Type"@, "application/octet-stream"@));
    lemma_request(
        mounts.request,
        client@,
        Method::Post,
        "/init-mounts"@,
        archive_headers(),
        seq![],
        Body::Archive,
    );
    assert(archive_headers()[0] == ("Content-Type"@, "application/x-tar"@));
    assert(archive_headers()[1] == ("Content-Encoding"@, "gzip"@));
    lemma_request(
        home.request,
        client@,
        Method::Post,
        "/write-home-files"@,
        seq![],
        seq![],
        Body::Json,
    );
    lemma_request(file.request, client@, Method::Post, "/fs/read"@, seq![], seq![], Body::Json);
}

/// A command is run as it was asked for: each word and each variable as it is and
/// in its place, the directory and the time as they are given; and whoever decodes
/// its input gets the bytes that were given.
pub proof fn law_commands_are_run_as_asked(
    client: &PodClient,
    cmd: &[&str],
    workdir: Option<&str>,
    env: &[String],
    stdin: Option<&[u8]>,
    timeout_secs: Option<u64>,
    ran: (Exchange, RunRequest),
    text: &str,
    decoded: Result<Vec<u8>, ContentError>,
)
    requires
        call_ensures(PodClient::run, (client, cmd, workdir, env, stdin, timeout_secs), ran),
        stdin is Some ==> is_encodable(stdin->0@.len()),
        ran.1.stdin is Some ==> text@ == ran.1.stdin->0@,
        call_ensures(PodClient::fs_read_content, (text,), decoded),
    ensures
        goes_to(client@, ran.0.request, Method::Post, "/run"@),
        ran.0.request.body == Body::Json,
        ran.0.operation@ == "/run"@,
        ran.1.cmd@.len() == cmd@.len(),
        forall|i: int| 0 <= i < cmd@.len() ==> (#[trigger] ran.1.cmd@[i])@ == cmd@[i]@,
        ran.1.env@.len() == env@.len(),
        forall|i: int| 0 <= i < env@.len() ==> (#[trigger] ran.1.env@[i])@ == env@[i]@,
        ran.1.workdir is Some <==> workdir is Some,
        workdir is Some ==> ran.1.workdir->0@ == workdir->0@,
        ran.1.timeout_secs == timeout_secs,
        ran.1.stdin is Some <==> stdin is Some,
        stdin is Some ==> decoded is Ok && decoded->Ok_0@ == stdin->0@,
{
    lemma_request(ran.0.request, client@, Method::Post, "/run"@, seq![], seq![], Body::Json);
    assert(ran.1.cmd.deep_view() == cmd.deep_view());
    assert(ran.1.env.deep_view() == env.deep_view());
    assert(ran.1.cmd.deep_view().len() == cmd.deep_view().len());
    assert(ran.1.env.deep_view().len() == env.deep_view().len());
    assert forall|i: int| 0 <= i < cmd@.len() implies (#[trigger] ran.1.cmd@[i])@ == cmd@[i]@ by {
        assert(ran.1.cmd.deep_view()[i] == cmd.deep_view()[i]);
    }
    assert forall|i: int| 0 <= i < env@.len() implies (#[trigger] ran.1.env@[i])@ == env@[i]@ by {
        assert(ran.1.env.deep_view()[i] == env.deep_view()[i]);
    }
}

/// The content of a file is what its text decodes to, and a text that does not
/// decode is told with what was said of it.
pub proof fn law_contents_are_what_was_decoded(
    decoded: Result<Vec<u8>, base64::DecodeError>,
    content: Result<Vec<u8>, ContentError>,
)
    requires
        call_ensures(content_of, (decoded,), content),
    ensures
        content is Ok <==> decoded is Ok,
        content is Ok ==> content->Ok_0@ == decoded->Ok_0@,
        content is Err ==> content->Err_0 == ContentError::NotBase64(decoded->Err_0),
{
}

} // verus!
