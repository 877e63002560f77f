//! Connector layer of the Connections screen.
//!
//! Open Notebook is probed and wired up over its HTTP API. The exchange is
//! written as two state machines, [`StatusProbe`] and [`ConnectRun`]: each
//! step takes the reply to the previous request and yields either the next
//! [`Request`] or the outcome. The caller performs the requests (it owns the
//! network), the machines make every decision. LibreChat and Dify are
//! manual-setup tools: only a ready-to-paste configuration snippet.

use vstd::prelude::*;
use crate::text::{after_last_char, decimal, decimal_string, eq_ignore_ascii_case, eq_ignore_case, join, str_eq, trim_end_matches, after_last, trim_end_all};

verus! {

// ---------------------------------------------------------------------------
// Status and the embedding URL
// ---------------------------------------------------------------------------

/// Where the Connections screen's "Detected on this computer" row lands.
#[derive(Debug, Clone, Copy, PartialEq, Eq, Structural)]
pub enum Status {
    Connected,
    Found,
    NeedsKey,
    NotFound,
}

pub open spec fn spec_embedding_url(port: Seq<char>, docker: bool) -> Seq<char> {
    let host = if docker { "host.docker.internal"@ } else { "127.0.0.1"@ };
    "http://"@ + host + ":"@ + port + "/v1"@
}

/// `http://127.0.0.1:{port}/v1` by default, or `http://host.docker.internal:{port}/v1`
/// when the row's "Runs in Docker" checkbox is on.
pub fn embedding_url(port: &str, docker: bool) -> (r: String)
    ensures
        r@ == spec_embedding_url(port@, docker),
{
    let host = if docker { "host.docker.internal" } else { "127.0.0.1" };
    let r = String::from_str("http://").concat(host).concat(":").concat(port).concat("/v1");
    r
}

// ---------------------------------------------------------------------------
// Values exchanged with Open Notebook
// ---------------------------------------------------------------------------

pub open spec fn opt_view(o: Option<String>) -> Option<Seq<char>> {
    match o {
        Some(s) => Some(s@),
        None => None,
    }
}

/// One entry of `GET /api/credentials`.
#[derive(Debug, Clone, PartialEq, Eq)]
pub struct CredentialSummary {
    pub id: String,
    pub base_url: Option<String>,
}

pub struct CredentialView {
    pub id: Seq<char>,
    pub base_url: Option<Seq<char>>,
}

impl View for CredentialSummary {
    type V = CredentialView;

    open spec fn view(&self) -> CredentialView {
        CredentialView { id: self.id@, base_url: opt_view(self.base_url) }
    }
}

/// One entry of `GET /api/models?type=embedding`.
#[derive(Debug, Clone, PartialEq, Eq)]
pub struct ModelSummary {
    pub id: String,
    pub name: String,
    pub provider: String,
    pub credential: Option<String>,
}

pub struct ModelView {
    pub id: Seq<char>,
    pub name: Seq<char>,
    pub provider: Seq<char>,
    pub credential: Option<Seq<char>>,
}

impl View for ModelSummary {
    type V = ModelView;

    open spec fn view(&self) -> ModelView {
        ModelView {
            id: self.id@,
            name: self.name@,
            provider: self.provider@,
            credential: opt_view(self.credential),
        }
    }
}

pub open spec fn creds_view(v: Seq<CredentialSummary>) -> Seq<CredentialView> {
    v.map_values(|c: CredentialSummary| c@)
}

pub open spec fn models_view(v: Seq<ModelSummary>) -> Seq<ModelView> {
    v.map_values(|m: ModelSummary| m@)
}

pub open spec fn strings_view(v: Seq<String>) -> Seq<Seq<char>> {
    v.map_values(|s: String| s@)
}

/// What a request failed with.
#[derive(Debug, Clone, PartialEq, Eq)]
pub enum ApiError {
    /// HTTP 401: the password is missing or wrong.
    Unauthorized,
    /// Any other HTTP status that is not a success.
    Http(u16),
    /// The server could not be reached.
    Network(String),
    /// The reply body was not what the request expects.
    Decode(String),
    /// The caller handed back a reply of another kind than the request expects.
    Unexpected,
}

pub enum ApiErrorView {
    Unauthorized,
    Http(u16),
    Network(Seq<char>),
    Decode(Seq<char>),
    Unexpected,
}

impl View for ApiError {
    type V = ApiErrorView;

    open spec fn view(&self) -> ApiErrorView {
        match self {
            ApiError::Unauthorized => ApiErrorView::Unauthorized,
            ApiError::Http(c) => ApiErrorView::Http(*c),
            ApiError::Network(m) => ApiErrorView::Network(m@),
            ApiError::Decode(m) => ApiErrorView::Decode(m@),
            ApiError::Unexpected => ApiErrorView::Unexpected,
        }
    }
}

pub open spec fn spec_error_message(e: ApiErrorView) -> Seq<char> {
    match e {
        ApiErrorView::Unauthorized => "unauthorized"@,
        ApiErrorView::Http(code) => "http "@ + decimal(code as nat),
        ApiErrorView::Network(m) => "network error: "@ + m,
        ApiErrorView::Decode(m) => m,
        ApiErrorView::Unexpected => "unexpected reply"@,
    }
}

impl ApiError {
    /// The error for a reply with a non-success HTTP status `code`:
    /// 401 means the password is missing or wrong.
    pub fn from_status(code: u16) -> (r: ApiError)
        ensures
            code == 401 ==> r == ApiError::Unauthorized,
            code != 401 ==> r == ApiError::Http(code),
    {
        if code == 401 {
            ApiError::Unauthorized
        } else {
            ApiError::Http(code)
        }
    }

    /// A copy of this error.
    pub fn duplicate(&self) -> (r: ApiError)
        ensures
            r@ == self@,
    {
        match self {
            ApiError::Unauthorized => ApiError::Unauthorized,
            ApiError::Http(c) => ApiError::Http(*c),
            ApiError::Network(m) => ApiError::Network(m.clone()),
            ApiError::Decode(m) => ApiError::Decode(m.clone()),
            ApiError::Unexpected => ApiError::Unexpected,
        }
    }

    /// The text shown for this error.
    pub fn message(&self) -> (r: String)
        ensures
            r@ == spec_error_message(self@),
    {
        match self {
            ApiError::Unauthorized => String::from_str("unauthorized"),
            ApiError::Http(code) => {
                let digits = decimal_string(*code as u64);
                String::from_str("http ").concat(digits.as_str())
            },
            ApiError::Network(m) => String::from_str("network error: ").concat(m.as_str()),
            ApiError::Decode(m) => m.clone(),
            ApiError::Unexpected => String::from_str("unexpected reply"),
        }
    }
}

/// The body of a successful reply, by the kind of request it answers.
#[derive(Debug, Clone, PartialEq, Eq)]
pub enum Answer {
    /// `GET /`: the `message` field (empty when absent).
    Root { message: String },
    /// A list of credentials.
    Credentials(Vec<CredentialSummary>),
    /// The credential that `POST /api/credentials` created.
    Credential(CredentialSummary),
    /// A list of embedding models.
    Models(Vec<ModelSummary>),
    /// The model that `POST /api/models` created.
    Model(ModelSummary),
    /// `GET /api/models/defaults`: the default embedding model, if any.
    Defaults { default_embedding_model: Option<String> },
    /// Any successful reply whose body is not read.
    Accepted,
}

pub enum AnswerView {
    Root { message: Seq<char> },
    Credentials(Seq<CredentialView>),
    Credential(CredentialView),
    Models(Seq<ModelView>),
    Model(ModelView),
    Defaults { default_embedding_model: Option<Seq<char>> },
    Accepted,
}

impl View for Answer {
    type V = AnswerView;

    open spec fn view(&self) -> AnswerView {
        match self {
            Answer::Root { message } => AnswerView::Root { message: message@ },
            Answer::Credentials(cs) => AnswerView::Credentials(creds_view(cs@)),
            Answer::Credential(c) => AnswerView::Credential(c@),
            Answer::Models(ms) => AnswerView::Models(models_view(ms@)),
            Answer::Model(m) => AnswerView::Model(m@),
            Answer::Defaults { default_embedding_model } => AnswerView::Defaults {
                default_embedding_model: opt_view(*default_embedding_model),
            },
            Answer::Accepted => AnswerView::Accepted,
        }
    }
}

/// The outcome of one request.
pub type Reply = Result<Answer, ApiError>;

pub type ReplyView = Result<AnswerView, ApiErrorView>;

pub open spec fn reply_view(r: Reply) -> ReplyView {
    match r {
        Ok(a) => Ok(a@),
        Err(e) => Err(e@),
    }
}

#[derive(Debug, Clone, Copy, PartialEq, Eq, Structural)]
pub enum Method {
    Get,
    Post,
    Put,
}

/// Which kind of [`Answer`] the caller should decode the reply into.
#[derive(Debug, Clone, Copy, PartialEq, Eq, Structural)]
pub enum Expect {
    Root,
    Credentials,
    Credential,
    Models,
    Model,
    Defaults,
    Anything,
}

/// A JSON request body.
#[derive(Debug, Clone, PartialEq, Eq)]
pub enum Body {
    /// `POST /api/credentials`
    CreateCredential {
        name: String,
        provider: String,
        base_url: String,
        modalities: Vec<String>,
        api_key: String,
    },
    /// `POST /api/models` (`kind` is sent as the `type` field).
    CreateModel { name: String, provider: String, kind: String, credential: String },
    /// `PUT /api/models/defaults`
    Defaults { default_embedding_model: String },
}

pub enum BodyView {
    CreateCredential {
        name: Seq<char>,
        provider: Seq<char>,
        base_url: Seq<char>,
        modalities: Seq<Seq<char>>,
        api_key: Seq<char>,
    },
    CreateModel { name: Seq<char>, provider: Seq<char>, kind: Seq<char>, credential: Seq<char> },
    Defaults { default_embedding_model: Seq<char> },
}

impl View for Body {
    type V = BodyView;

    open spec fn view(&self) -> BodyView {
        match self {
            Body::CreateCredential { name, provider, base_url, modalities, api_key } =>
                BodyView::CreateCredential {
                name: name@,
                provider: provider@,
                base_url: base_url@,
                modalities: strings_view(modalities@),
                api_key: api_key@,
            },
            Body::CreateModel { name, provider, kind, credential } => BodyView::CreateModel {
                name: name@,
                provider: provider@,
                kind: kind@,
                credential: credential@,
            },
            Body::Defaults { default_embedding_model } => BodyView::Defaults {
                default_embedding_model: default_embedding_model@,
            },
        }
    }
}

pub open spec fn opt_body_view(b: Option<Body>) -> Option<BodyView> {
    match b {
        Some(b) => Some(b@),
        None => None,
    }
}

/// One HTTP request for the caller to perform.
#[derive(Debug, Clone, PartialEq, Eq)]
pub struct Request {
    pub method: Method,
    pub url: String,
    /// The value of the `Authorization` header, if one is sent.
    pub authorization: Option<String>,
    pub body: Option<Body>,
    pub expect: Expect,
    pub timeout_ms: u64,
}

pub struct RequestView {
    pub method: Method,
    pub url: Seq<char>,
    pub authorization: Option<Seq<char>>,
    pub body: Option<BodyView>,
    pub expect: Expect,
    pub timeout_ms: u64,
}

impl View for Request {
    type V = RequestView;

    open spec fn view(&self) -> RequestView {
        RequestView {
            method: self.method,
            url: self.url@,
            authorization: opt_view(self.authorization),
            body: opt_body_view(self.body),
            expect: self.expect,
            timeout_ms: self.timeout_ms,
        }
    }
}

/// `Authorization: Bearer <password>` when a password is given.
pub open spec fn auth_header(password: Option<Seq<char>>) -> Option<Seq<char>> {
    match password {
        Some(p) => Some("Bearer "@ + p),
        None => None,
    }
}

pub open spec fn request_view(
    method: Method,
    base: Seq<char>,
    path: Seq<char>,
    password: Option<Seq<char>>,
    body: Option<BodyView>,
    expect: Expect,
    timeout_ms: u64,
) -> RequestView {
    RequestView {
        method,
        url: base + path,
        authorization: auth_header(password),
        body,
        expect,
        timeout_ms,
    }
}

fn opt_str(o: &Option<String>) -> (r: Option<&str>)
    ensures
        match r {
            Some(s) => opt_view(*o) == Some(s@),
            None => o.is_none(),
        },
{
    match o {
        Some(s) => Some(s.as_str()),
        None => None,
    }
}

fn opt_owned(o: Option<&str>) -> (r: Option<String>)
    ensures
        opt_view(r) == match o {
            Some(s) => Some(s@),
            None => None::<Seq<char>>,
        },
{
    match o {
        Some(s) => Some(String::from_str(s)),
        None => None,
    }
}

/// A request to `base_url` followed by `path`.
fn make_request(
    method: Method,
    base_url: &str,
    path: &str,
    password: Option<&str>,
    body: Option<Body>,
    expect: Expect,
    timeout_ms: u64,
) -> (r: Request)
    ensures
        r@ == request_view(
            method,
            base_url@,
            path@,
            match password {
                Some(p) => Some(p@),
                None => None::<Seq<char>>,
            },
            opt_body_view(body),
            expect,
            timeout_ms,
        ),
{
    let authorization = match password {
        Some(p) => Some(join("Bearer ", p)),
        None => None,
    };
    Request { method, url: join(base_url, path), authorization, body, expect, timeout_ms }
}

// ---------------------------------------------------------------------------
// Searches in the lists Open Notebook returns
// ---------------------------------------------------------------------------

pub open spec fn first_cred_for_url(cs: Seq<CredentialView>, url: Seq<char>, i: int) -> bool {
    &&& 0 <= i < cs.len()
    &&& cs[i].base_url == Some(url)
    &&& forall|j: int| 0 <= j < i ==> (#[trigger] cs[j]).base_url != Some(url)
}

/// The index of the first credential whose `base_url` is `url`.
pub open spec fn cred_for_url(cs: Seq<CredentialView>, url: Seq<char>) -> Option<int> {
    if exists|i: int| first_cred_for_url(cs, url, i) {
        Some(choose|i: int| first_cred_for_url(cs, url, i))
    } else {
        None
    }
}

pub open spec fn first_cred_with_id(cs: Seq<CredentialView>, id: Seq<char>, i: int) -> bool {
    &&& 0 <= i < cs.len()
    &&& cs[i].id == id
    &&& forall|j: int| 0 <= j < i ==> (#[trigger] cs[j]).id != id
}

/// The index of the first credential with the given `id`.
pub open spec fn cred_with_id(cs: Seq<CredentialView>, id: Seq<char>) -> Option<int> {
    if exists|i: int| first_cred_with_id(cs, id, i) {
        Some(choose|i: int| first_cred_with_id(cs, id, i))
    } else {
        None
    }
}

pub open spec fn first_model_for_cred(ms: Seq<ModelView>, cred: Seq<char>, i: int) -> bool {
    &&& 0 <= i < ms.len()
    &&& ms[i].credential == Some(cred)
    &&& forall|j: int| 0 <= j < i ==> (#[trigger] ms[j]).credential != Some(cred)
}

/// The index of the first model bound to the credential `cred`.
pub open spec fn model_for_cred(ms: Seq<ModelView>, cred: Seq<char>) -> Option<int> {
    if exists|i: int| first_model_for_cred(ms, cred, i) {
        Some(choose|i: int| first_model_for_cred(ms, cred, i))
    } else {
        None
    }
}

pub open spec fn first_model_with_id(ms: Seq<ModelView>, id: Seq<char>, i: int) -> bool {
    &&& 0 <= i < ms.len()
    &&& ms[i].id == id
    &&& forall|j: int| 0 <= j < i ==> (#[trigger] ms[j]).id != id
}

/// The index of the first model with the given `id`.
pub open spec fn model_with_id(ms: Seq<ModelView>, id: Seq<char>) -> Option<int> {
    if exists|i: int| first_model_with_id(ms, id, i) {
        Some(choose|i: int| first_model_with_id(ms, id, i))
    } else {
        None
    }
}

pub open spec fn takes_our_name(m: ModelView) -> bool {
    eq_ignore_ascii_case(m.name, "bge-m3"@) && m.provider == "openai_compatible"@
}

/// Some model is already registered as `bge-m3` (any ASCII case) under the
/// `openai_compatible` provider.
pub open spec fn name_taken(ms: Seq<ModelView>) -> bool {
    exists|i: int| 0 <= i < ms.len() && takes_our_name(#[trigger] ms[i])
}

fn find_cred_for_url(cs: &Vec<CredentialSummary>, url: &str) -> (r: Option<usize>)
    ensures
        match r {
            Some(i) => cred_for_url(creds_view(cs@), url@) == Some(i as int),
            None => cred_for_url(creds_view(cs@), url@) is None,
        },
{
    let ghost v = creds_view(cs@);
    let mut i: usize = 0;
    while i < cs.len()
        invariant
            v == creds_view(cs@),
            i <= cs.len(),
            forall|j: int| 0 <= j < i ==> (#[trigger] v[j]).base_url != Some(url@),
        decreases cs.len() - i,
    {
        let hit = match &cs[i].base_url {
            Some(u) => str_eq(u.as_str(), url),
            None => false,
        };
        if hit {
            assert(first_cred_for_url(v, url@, i as int));
            return Some(i);
        }
        assert(v[i as int].base_url != Some(url@));
        i = i + 1;
    }
    assert(!exists|k: int| first_cred_for_url(v, url@, k));
    None
}

fn find_cred_with_id(cs: &Vec<CredentialSummary>, id: &str) -> (r: Option<usize>)
    ensures
        match r {
            Some(i) => cred_with_id(creds_view(cs@), id@) == Some(i as int),
            None => cred_with_id(creds_view(cs@), id@) is None,
        },
{
    let ghost v = creds_view(cs@);
    let mut i: usize = 0;
    while i < cs.len()
        invariant
            v == creds_view(cs@),
            i <= cs.len(),
            forall|j: int| 0 <= j < i ==> (#[trigger] v[j]).id != id@,
        decreases cs.len() - i,
    {
        if str_eq(cs[i].id.as_str(), id) {
            assert(first_cred_with_id(v, id@, i as int));
            return Some(i);
        }
        i = i + 1;
    }
    assert(!exists|k: int| first_cred_with_id(v, id@, k));
    None
}

fn find_model_for_cred(ms: &Vec<ModelSummary>, cred: &str) -> (r: Option<usize>)
    ensures
        match r {
            Some(i) => model_for_cred(models_view(ms@), cred@) == Some(i as int),
            None => model_for_cred(models_view(ms@), cred@) is None,
        },
{
    let ghost v = models_view(ms@);
    let mut i: usize = 0;
    while i < ms.len()
        invariant
            v == models_view(ms@),
            i <= ms.len(),
            forall|j: int| 0 <= j < i ==> (#[trigger] v[j]).credential != Some(cred@),
        decreases ms.len() - i,
    {
        let hit = match &ms[i].credential {
            Some(c) => str_eq(c.as_str(), cred),
            None => false,
        };
        if hit {
            assert(first_model_for_cred(v, cred@, i as int));
            return Some(i);
        }
        assert(v[i as int].credential != Some(cred@));
        i = i + 1;
    }
    assert(!exists|k: int| first_model_for_cred(v, cred@, k));
    None
}

fn find_model_with_id(ms: &Vec<ModelSummary>, id: &str) -> (r: Option<usize>)
    ensures
        match r {
            Some(i) => model_with_id(models_view(ms@), id@) == Some(i as int),
            None => model_with_id(models_view(ms@), id@) is None,
        },
{
    let ghost v = models_view(ms@);
    let mut i: usize = 0;
    while i < ms.len()
        invariant
            v == models_view(ms@),
            i <= ms.len(),
            forall|j: int| 0 <= j < i ==> (#[trigger] v[j]).id != id@,
        decreases ms.len() - i,
    {
        if str_eq(ms[i].id.as_str(), id) {
            assert(first_model_with_id(v, id@, i as int));
            return Some(i);
        }
        i = i + 1;
    }
    assert(!exists|k: int| first_model_with_id(v, id@, k));
    None
}

fn is_name_taken(ms: &Vec<ModelSummary>) -> (r: bool)
    ensures
        r == name_taken(models_view(ms@)),
{
    let ghost v = models_view(ms@);
    let mut i: usize = 0;
    while i < ms.len()
        invariant
            v == models_view(ms@),
            i <= ms.len(),
            forall|j: int| 0 <= j < i ==> !takes_our_name(#[trigger] v[j]),
        decreases ms.len() - i,
    {
        if eq_ignore_case(ms[i].name.as_str(), "bge-m3") && str_eq(
            ms[i].provider.as_str(),
            "openai_compatible",
        ) {
            assert(takes_our_name(v[i as int]));
            return true;
        }
        i = i + 1;
    }
    false
}

// ---------------------------------------------------------------------------
// Names and snippets derived from the embedding URL
// ---------------------------------------------------------------------------

/// `"http://host:port/v1"` -> `"port"`: the text after the last `:`, without
/// trailing `/v1`s.
pub open spec fn spec_port_of(embed_url: Seq<char>) -> Seq<char> {
    trim_end_all(after_last(embed_url, ':'), "/v1"@)
}

/// `"http://host:port/v1"` -> `"port"`, for the disambiguated model name.
pub fn port_of(embed_url: &str) -> (r: &str)
    ensures
        r@ == spec_port_of(embed_url@),
{
    trim_end_matches(after_last_char(embed_url, ':'), "/v1")
}

/// The name a new model is registered under: `bge-m3`, or, when that name is
/// already taken, `bge-m3 (bge-embed-rs :<port>)`.
pub open spec fn spec_model_name(ms: Seq<ModelView>, embed_url: Seq<char>) -> Seq<char> {
    if name_taken(ms) {
        "bge-m3 (bge-embed-rs :"@ + spec_port_of(embed_url) + ")"@
    } else {
        "bge-m3"@
    }
}

fn model_name(ms: &Vec<ModelSummary>, embed_url: &str) -> (r: String)
    ensures
        r@ == spec_model_name(models_view(ms@), embed_url@),
{
    if is_name_taken(ms) {
        String::from_str("bge-m3 (bge-embed-rs :").concat(port_of(embed_url)).concat(")")
    } else {
        String::from_str("bge-m3")
    }
}

// ---------------------------------------------------------------------------
// Open Notebook
// ---------------------------------------------------------------------------

/// Open Notebook's HTTP API, as seen from this server.
pub struct OpenNotebook;

pub open spec fn fingerprint() -> Seq<char> {
    "Open Notebook API is running"@
}

/// Reply to `GET /` identifies Open Notebook.
pub open spec fn is_open_notebook(reply: ReplyView) -> bool {
    match reply {
        Ok(AnswerView::Root { message }) => message == fingerprint(),
        _ => false,
    }
}

pub open spec fn probe_timeout() -> u64 {
    1500
}

pub open spec fn connect_timeout() -> u64 {
    5000
}

pub open spec fn credential_body(embed_url: Seq<char>) -> BodyView {
    BodyView::CreateCredential {
        name: "bge-embed-rs"@,
        provider: "openai_compatible"@,
        base_url: embed_url,
        modalities: seq!["embedding"@],
        api_key: "sk-local"@,
    }
}

pub open spec fn model_body(name: Seq<char>, credential: Seq<char>) -> BodyView {
    BodyView::CreateModel {
        name,
        provider: "openai_compatible"@,
        kind: "embedding"@,
        credential,
    }
}

impl OpenNotebook {
    pub const NAME: &'static str = "Open Notebook";

    pub const INITIALS: &'static str = "ON";

    pub const DEFAULT_BASE_URL: &'static str = "http://127.0.0.1:5055";

    /// The fingerprint request: `GET <base_url>/`, without credentials.
    pub fn detect_request(base_url: &str) -> (r: Request)
        ensures
            r@ == request_view(Method::Get, base_url@, "/"@, None, None, Expect::Root, probe_timeout()),
    {
        make_request(Method::Get, base_url, "/", None, None, Expect::Root, 1500)
    }

    /// Whether the reply to [`OpenNotebook::detect_request`] comes from Open
    /// Notebook: a bare port scan would match anything, so the identifying
    /// `message` field must read `Open Notebook API is running`.
    pub fn detect(reply: &Reply) -> (r: bool)
        ensures
            r == is_open_notebook(reply_view(*reply)),
    {
        match reply {
            Ok(Answer::Root { message }) => str_eq(message.as_str(), "Open Notebook API is running"),
            _ => false,
        }
    }
}

// ---------------------------------------------------------------------------
// The status probe
// ---------------------------------------------------------------------------

/// Where a [`StatusProbe`] stands: which reply it waits for.
#[derive(Debug, Clone, PartialEq, Eq)]
pub enum ProbePhase {
    /// Waiting for `GET /` (the fingerprint).
    Detect,
    /// Waiting for `GET /api/models/defaults`.
    Defaults,
    /// Waiting for `GET /api/models?type=embedding`; `model` is the default.
    Models { model: String },
    /// Waiting for `GET /api/credentials`; `credential` is the default model's.
    Credentials { credential: String },
    /// Done.
    Finished { status: Status },
}

pub enum ProbePhaseView {
    Detect,
    Defaults,
    Models { model: Seq<char> },
    Credentials { credential: Seq<char> },
    Finished { status: Status },
}

impl View for ProbePhase {
    type V = ProbePhaseView;

    open spec fn view(&self) -> ProbePhaseView {
        match self {
            ProbePhase::Detect => ProbePhaseView::Detect,
            ProbePhase::Defaults => ProbePhaseView::Defaults,
            ProbePhase::Models { model } => ProbePhaseView::Models { model: model@ },
            ProbePhase::Credentials { credential } => ProbePhaseView::Credentials {
                credential: credential@,
            },
            ProbePhase::Finished { status } => ProbePhaseView::Finished { status: *status },
        }
    }
}

/// Finds out how Open Notebook at `base_url` relates to the embedding
/// server at `embed_url` (see [`OpenNotebook::status`]).
#[derive(Debug, Clone, PartialEq, Eq)]
pub struct StatusProbe {
    pub base_url: String,
    pub embed_url: String,
    pub password: Option<String>,
    pub phase: ProbePhase,
}

pub struct StatusProbeView {
    pub base: Seq<char>,
    pub embed: Seq<char>,
    pub password: Option<Seq<char>>,
    pub phase: ProbePhaseView,
}

impl View for StatusProbe {
    type V = StatusProbeView;

    open spec fn view(&self) -> StatusProbeView {
        StatusProbeView {
            base: self.base_url@,
            embed: self.embed_url@,
            password: opt_view(self.password),
            phase: self.phase@,
        }
    }
}

/// What a [`StatusProbe`] asks for next.
#[derive(Debug, Clone, PartialEq, Eq)]
pub enum ProbeStep {
    Send(Request),
    Done(Status),
}

pub enum ProbeStepView {
    Send(RequestView),
    Done(Status),
}

impl View for ProbeStep {
    type V = ProbeStepView;

    open spec fn view(&self) -> ProbeStepView {
        match self {
            ProbeStep::Send(r) => ProbeStepView::Send(r@),
            ProbeStep::Done(s) => ProbeStepView::Done(*s),
        }
    }
}

pub open spec fn probe_get(p: StatusProbeView, path: Seq<char>, expect: Expect) -> RequestView {
    request_view(Method::Get, p.base, path, p.password, None, expect, probe_timeout())
}

pub open spec fn probe_finish(s: Status) -> (ProbePhaseView, ProbeStepView) {
    (ProbePhaseView::Finished { status: s }, ProbeStepView::Done(s))
}

/// One step of the status probe: the next phase, and the next request or
/// the status.
pub open spec fn probe_next(p: StatusProbeView, reply: ReplyView) -> (ProbePhaseView, ProbeStepView) {
    match p.phase {
        ProbePhaseView::Detect => if is_open_notebook(reply) {
            (
                ProbePhaseView::Defaults,
                ProbeStepView::Send(probe_get(p, "/api/models/defaults"@, Expect::Defaults)),
            )
        } else {
            probe_finish(Status::NotFound)
        },
        ProbePhaseView::Defaults => match reply {
            Ok(AnswerView::Defaults { default_embedding_model: Some(model) }) => (
                ProbePhaseView::Models { model },
                ProbeStepView::Send(probe_get(p, "/api/models?type=embedding"@, Expect::Models)),
            ),
            Err(ApiErrorView::Unauthorized) => probe_finish(Status::NeedsKey),
            _ => probe_finish(Status::Found),
        },
        ProbePhaseView::Models { model } => match reply {
            Ok(AnswerView::Models(ms)) => match model_with_id(ms, model) {
                Some(i) => match ms[i].credential {
                    Some(credential) => (
                        ProbePhaseView::Credentials { credential },
                        ProbeStepView::Send(probe_get(p, "/api/credentials"@, Expect::Credentials)),
                    ),
                    None => probe_finish(Status::Found),
                },
                None => probe_finish(Status::Found),
            },
            _ => probe_finish(Status::Found),
        },
        ProbePhaseView::Credentials { credential } => match reply {
            Ok(AnswerView::Credentials(cs)) => match cred_with_id(cs, credential) {
                Some(i) => if cs[i].base_url == Some(p.embed) {
                    probe_finish(Status::Connected)
                } else {
                    probe_finish(Status::Found)
                },
                None => probe_finish(Status::Found),
            },
            _ => probe_finish(Status::Found),
        },
        ProbePhaseView::Finished { status } => probe_finish(status),
    }
}

/// The probe as [`OpenNotebook::status`] starts it, with its first request.
pub open spec fn probe_start(base: Seq<char>, embed: Seq<char>, password: Option<Seq<char>>) -> (
    StatusProbeView,
    RequestView,
) {
    (
        StatusProbeView { base, embed, password, phase: ProbePhaseView::Detect },
        request_view(Method::Get, base, "/"@, None, None, Expect::Root, probe_timeout()),
    )
}

pub open spec fn opt_str_view(o: Option<&str>) -> Option<Seq<char>> {
    match o {
        Some(s) => Some(s@),
        None => None,
    }
}

impl StatusProbe {
    /// Feeds the reply to the last request; returns the next request, or the
    /// status once it is known. After the status is known every further call
    /// returns it again.
    pub fn advance(&mut self, reply: Reply) -> (r: ProbeStep)
        ensures
            final(self).base_url@ == old(self).base_url@,
            final(self).embed_url@ == old(self).embed_url@,
            opt_view(final(self).password) == opt_view(old(self).password),
            (final(self).phase@, r@) == probe_next(old(self)@, reply_view(reply)),
    {
        let ghost p0 = self@;
        let ghost rv = reply_view(reply);
        let password = opt_str(&self.password);
        let next: (ProbePhase, ProbeStep) = match &self.phase {
            ProbePhase::Detect => {
                if OpenNotebook::detect(&reply) {
                    let req = make_request(
                        Method::Get,
                        self.base_url.as_str(),
                        "/api/models/defaults",
                        password,
                        None,
                        Expect::Defaults,
                        1500,
                    );
                    (ProbePhase::Defaults, ProbeStep::Send(req))
                } else {
                    (ProbePhase::Finished { status: Status::NotFound }, ProbeStep::Done(Status::NotFound))
                }
            },
            ProbePhase::Defaults => match reply {
                Ok(Answer::Defaults { default_embedding_model: Some(model) }) => {
                    let req = make_request(
                        Method::Get,
                        self.base_url.as_str(),
                        "/api/models?type=embedding",
                        password,
                        None,
                        Expect::Models,
                        1500,
                    );
                    (ProbePhase::Models { model }, ProbeStep::Send(req))
                },
                Err(ApiError::Unauthorized) => (
                    ProbePhase::Finished { status: Status::NeedsKey },
                    ProbeStep::Done(Status::NeedsKey),
                ),
                _ => (ProbePhase::Finished { status: Status::Found }, ProbeStep::Done(Status::Found)),
            },
            ProbePhase::Models { model } => match reply {
                Ok(Answer::Models(ms)) => {
                    proof {
                        assert(rv == Ok::<AnswerView, ApiErrorView>(AnswerView::Models(models_view(ms@))));
                    }
                    match find_model_with_id(&ms, model.as_str()) {
                        Some(i) => match &ms[i].credential {
                            Some(credential) => {
                                let req = make_request(
                                    Method::Get,
                                    self.base_url.as_str(),
                                    "/api/credentials",
                                    password,
                                    None,
                                    Expect::Credentials,
                                    1500,
                                );
                                (
                                    ProbePhase::Credentials { credential: credential.clone() },
                                    ProbeStep::Send(req),
                                )
                            },
                            None => (
                                ProbePhase::Finished { status: Status::Found },
                                ProbeStep::Done(Status::Found),
                            ),
                        },
                        None => (
                            ProbePhase::Finished { status: Status::Found },
                            ProbeStep::Done(Status::Found),
                        ),
                    }
                },
                _ => (ProbePhase::Finished { status: Status::Found }, ProbeStep::Done(Status::Found)),
            },
            ProbePhase::Credentials { credential } => match reply {
                Ok(Answer::Credentials(cs)) => {
                    proof {
                        assert(rv == Ok::<AnswerView, ApiErrorView>(AnswerView::Credentials(creds_view(cs@))));
                    }
                    let status = match find_cred_with_id(&cs, credential.as_str()) {
                        Some(i) => {
                            let ours = match &cs[i].base_url {
                                Some(u) => str_eq(u.as_str(), self.embed_url.as_str()),
                                None => false,
                            };
                            if ours {
                                Status::Connected
                            } else {
                                Status::Found
                            }
                        },
                        None => Status::Found,
                    };
                    (ProbePhase::Finished { status }, ProbeStep::Done(status))
                },
                _ => (ProbePhase::Finished { status: Status::Found }, ProbeStep::Done(Status::Found)),
            },
            ProbePhase::Finished { status } => (
                ProbePhase::Finished { status: *status },
                ProbeStep::Done(*status),
            ),
        };
        self.phase = next.0;
        next.1
    }
}

impl OpenNotebook {
    /// Starts finding out how Open Notebook at `base_url` relates to the
    /// embedding server at `embed_url`; returns the probe and its first
    /// request. The probe ends in
    /// - `NotFound` when the fingerprint does not answer (see [`OpenNotebook::detect`]),
    /// - `NeedsKey` when the defaults are refused for a missing or wrong password,
    /// - `Connected` when the default embedding model's *credential* points
    ///   at `embed_url` (the model may be named anything),
    /// - `Found` otherwise.
    pub fn status(base_url: &str, embed_url: &str, password: Option<&str>) -> (r: (StatusProbe, Request))
        ensures
            (r.0@, r.1@) == probe_start(base_url@, embed_url@, opt_str_view(password)),
    {
        let probe = StatusProbe {
            base_url: String::from_str(base_url),
            embed_url: String::from_str(embed_url),
            password: opt_owned(password),
            phase: ProbePhase::Detect,
        };
        (probe, OpenNotebook::detect_request(base_url))
    }
}

// ---------------------------------------------------------------------------
// The connect run
// ---------------------------------------------------------------------------

/// Where a [`ConnectRun`] stands: which reply it waits for.
#[derive(Debug, PartialEq, Eq)]
pub enum ConnectPhase {
    /// Waiting for the defaults, to see whether Open Notebook already points here.
    CheckDefaults,
    /// Waiting for the embedding models; `model` is the current default.
    CheckModels { model: String },
    /// Waiting for all credentials; `credential` is the default model's.
    CheckCredentials { credential: String },
    /// Waiting for the `openai_compatible` credentials.
    ListCredentials,
    /// Waiting for the credential this run created.
    CreateCredential,
    /// Waiting for the embedding models; `credential` is ours.
    ListModels { credential: String },
    /// Waiting for the model this run creates on `credential`.
    CreateModel { credential: String },
    /// The model's name was refused as a duplicate; waiting for the models again.
    Relist { credential: String },
    /// Waiting for the defaults; `model` is the one to make the default.
    ReadDefaults { model: String },
    /// Waiting for the defaults to be written.
    WriteDefaults,
    /// Done: whether the default embedding model changed, or why it failed.
    Finished { outcome: Result<bool, ApiError> },
}

pub open spec fn outcome_view(o: Result<bool, ApiError>) -> Result<bool, ApiErrorView> {
    match o {
        Ok(b) => Ok(b),
        Err(e) => Err(e@),
    }
}

pub enum ConnectPhaseView {
    CheckDefaults,
    CheckModels { model: Seq<char> },
    CheckCredentials { credential: Seq<char> },
    ListCredentials,
    CreateCredential,
    ListModels { credential: Seq<char> },
    CreateModel { credential: Seq<char> },
    Relist { credential: Seq<char> },
    ReadDefaults { model: Seq<char> },
    WriteDefaults,
    Finished { outcome: Result<bool, ApiErrorView> },
}

impl View for ConnectPhase {
    type V = ConnectPhaseView;

    open spec fn view(&self) -> ConnectPhaseView {
        match self {
            ConnectPhase::CheckDefaults => ConnectPhaseView::CheckDefaults,
            ConnectPhase::CheckModels { model } => ConnectPhaseView::CheckModels { model: model@ },
            ConnectPhase::CheckCredentials { credential } => ConnectPhaseView::CheckCredentials {
                credential: credential@,
            },
            ConnectPhase::ListCredentials => ConnectPhaseView::ListCredentials,
            ConnectPhase::CreateCredential => ConnectPhaseView::CreateCredential,
            ConnectPhase::ListModels { credential } => ConnectPhaseView::ListModels {
                credential: credential@,
            },
            ConnectPhase::CreateModel { credential } => ConnectPhaseView::CreateModel {
                credential: credential@,
            },
            ConnectPhase::Relist { credential } => ConnectPhaseView::Relist {
                credential: credential@,
            },
            ConnectPhase::ReadDefaults { model } => ConnectPhaseView::ReadDefaults { model: model@ },
            ConnectPhase::WriteDefaults => ConnectPhaseView::WriteDefaults,
            ConnectPhase::Finished { outcome } => ConnectPhaseView::Finished {
                outcome: outcome_view(*outcome),
            },
        }
    }
}

/// Points Open Notebook at `base_url` to the embedding server at
/// `embed_url` (see [`OpenNotebook::connect`]).
#[derive(Debug, PartialEq, Eq)]
pub struct ConnectRun {
    pub base_url: String,
    pub embed_url: String,
    pub password: Option<String>,
    pub phase: ConnectPhase,
}

pub struct ConnectRunView {
    pub base: Seq<char>,
    pub embed: Seq<char>,
    pub password: Option<Seq<char>>,
    pub phase: ConnectPhaseView,
}

impl View for ConnectRun {
    type V = ConnectRunView;

    open spec fn view(&self) -> ConnectRunView {
        ConnectRunView {
            base: self.base_url@,
            embed: self.embed_url@,
            password: opt_view(self.password),
            phase: self.phase@,
        }
    }
}

/// What a [`ConnectRun`] asks for next.
#[derive(Debug, PartialEq, Eq)]
pub enum ConnectStep {
    Send(Request),
    /// `Ok(true)` iff the run changed the default embedding model.
    Done(Result<bool, ApiError>),
}

pub enum ConnectStepView {
    Send(RequestView),
    Done(Result<bool, ApiErrorView>),
}

impl View for ConnectStep {
    type V = ConnectStepView;

    open spec fn view(&self) -> ConnectStepView {
        match self {
            ConnectStep::Send(r) => ConnectStepView::Send(r@),
            ConnectStep::Done(o) => ConnectStepView::Done(outcome_view(*o)),
        }
    }
}

pub open spec fn connect_get(run: ConnectRunView, path: Seq<char>, expect: Expect) -> RequestView {
    request_view(Method::Get, run.base, path, run.password, None, expect, connect_timeout())
}

pub open spec fn connect_send(
    run: ConnectRunView,
    method: Method,
    path: Seq<char>,
    body: BodyView,
    expect: Expect,
) -> RequestView {
    request_view(method, run.base, path, run.password, Some(body), expect, connect_timeout())
}

pub open spec fn connect_finish(o: Result<bool, ApiErrorView>) -> (ConnectPhaseView, ConnectStepView) {
    (ConnectPhaseView::Finished { outcome: o }, ConnectStepView::Done(o))
}

pub open spec fn list_models_next(run: ConnectRunView, credential: Seq<char>) -> (
    ConnectPhaseView,
    ConnectStepView,
) {
    (
        ConnectPhaseView::ListModels { credential },
        ConnectStepView::Send(connect_get(run, "/api/models?type=embedding"@, Expect::Models)),
    )
}

pub open spec fn read_defaults_next(run: ConnectRunView, model: Seq<char>) -> (
    ConnectPhaseView,
    ConnectStepView,
) {
    (
        ConnectPhaseView::ReadDefaults { model },
        ConnectStepView::Send(connect_get(run, "/api/models/defaults"@, Expect::Defaults)),
    )
}

/// Leaves the check: Open Notebook does not point here yet, so look for our
/// credential.
pub open spec fn list_credentials_next(run: ConnectRunView) -> (ConnectPhaseView, ConnectStepView) {
    (
        ConnectPhaseView::ListCredentials,
        ConnectStepView::Send(
            connect_get(run, "/api/credentials?provider=openai_compatible"@, Expect::Credentials),
        ),
    )
}

/// One step of the connect run: the next phase, and the next request or the
/// outcome. A reply of another kind than the request expects ends the run
/// with `ApiError::Unexpected`.
///
/// The run first checks, as the status probe does, whether the default
/// embedding model's credential already has `embed` as its `base_url`; if so
/// it ends with `Ok(false)` after reading only. Any other reply to these
/// reads, a failed or unexpected one included, sends the run on to look for
/// its credential.
pub open spec fn connect_next(run: ConnectRunView, reply: ReplyView) -> (ConnectPhaseView, ConnectStepView) {
    match run.phase {
        ConnectPhaseView::CheckDefaults => match reply {
            Ok(AnswerView::Defaults { default_embedding_model: Some(model) }) => (
                ConnectPhaseView::CheckModels { model },
                ConnectStepView::Send(connect_get(run, "/api/models?type=embedding"@, Expect::Models)),
            ),
            _ => list_credentials_next(run),
        },
        ConnectPhaseView::CheckModels { model } => match reply {
            Ok(AnswerView::Models(ms)) => match model_with_id(ms, model) {
                Some(i) => match ms[i].credential {
                    Some(credential) => (
                        ConnectPhaseView::CheckCredentials { credential },
                        ConnectStepView::Send(connect_get(run, "/api/credentials"@, Expect::Credentials)),
                    ),
                    None => list_credentials_next(run),
                },
                None => list_credentials_next(run),
            },
            _ => list_credentials_next(run),
        },
        ConnectPhaseView::CheckCredentials { credential } => match reply {
            Ok(AnswerView::Credentials(cs)) => match cred_with_id(cs, credential) {
                Some(i) => if cs[i].base_url == Some(run.embed) {
                    connect_finish(Ok(false))
                } else {
                    list_credentials_next(run)
                },
                None => list_credentials_next(run),
            },
            _ => list_credentials_next(run),
        },
        ConnectPhaseView::ListCredentials => match reply {
            Ok(AnswerView::Credentials(cs)) => match cred_for_url(cs, run.embed) {
                Some(i) => list_models_next(run, cs[i].id),
                None => (
                    ConnectPhaseView::CreateCredential,
                    ConnectStepView::Send(
                        connect_send(
                            run,
                            Method::Post,
                            "/api/credentials"@,
                            credential_body(run.embed),
                            Expect::Credential,
                        ),
                    ),
                ),
            },
            Ok(_) => connect_finish(Err(ApiErrorView::Unexpected)),
            Err(e) => connect_finish(Err(e)),
        },
        ConnectPhaseView::CreateCredential => match reply {
            Ok(AnswerView::Credential(c)) => list_models_next(run, c.id),
            Ok(_) => connect_finish(Err(ApiErrorView::Unexpected)),
            Err(e) => connect_finish(Err(e)),
        },
        ConnectPhaseView::ListModels { credential } => match reply {
            Ok(AnswerView::Models(ms)) => match model_for_cred(ms, credential) {
                Some(i) => read_defaults_next(run, ms[i].id),
                None => (
                    ConnectPhaseView::CreateModel { credential },
                    ConnectStepView::Send(
                        connect_send(
                            run,
                            Method::Post,
                            "/api/models"@,
                            model_body(spec_model_name(ms, run.embed), credential),
                            Expect::Model,
                        ),
                    ),
                ),
            },
            Ok(_) => connect_finish(Err(ApiErrorView::Unexpected)),
            Err(e) => connect_finish(Err(e)),
        },
        ConnectPhaseView::CreateModel { credential } => match reply {
            Ok(AnswerView::Model(m)) => read_defaults_next(run, m.id),
            Ok(_) => connect_finish(Err(ApiErrorView::Unexpected)),
            Err(ApiErrorView::Http(400)) => (
                ConnectPhaseView::Relist { credential },
                ConnectStepView::Send(connect_get(run, "/api/models?type=embedding"@, Expect::Models)),
            ),
            Err(e) => connect_finish(Err(e)),
        },
        ConnectPhaseView::Relist { credential } => match reply {
            Ok(AnswerView::Models(ms)) => match model_for_cred(ms, credential) {
                Some(i) => read_defaults_next(run, ms[i].id),
                None => connect_finish(Err(ApiErrorView::Http(400))),
            },
            Ok(_) => connect_finish(Err(ApiErrorView::Unexpected)),
            Err(e) => connect_finish(Err(e)),
        },
        ConnectPhaseView::ReadDefaults { model } => match reply {
            Ok(AnswerView::Defaults { default_embedding_model }) => if default_embedding_model
                == Some(model) {
                connect_finish(Ok(false))
            } else {
                (
                    ConnectPhaseView::WriteDefaults,
                    ConnectStepView::Send(
                        connect_send(
                            run,
                            Method::Put,
                            "/api/models/defaults"@,
                            BodyView::Defaults { default_embedding_model: model },
                            Expect::Anything,
                        ),
                    ),
                )
            },
            Ok(_) => connect_finish(Err(ApiErrorView::Unexpected)),
            Err(e) => connect_finish(Err(e)),
        },
        ConnectPhaseView::WriteDefaults => match reply {
            Ok(_) => connect_finish(Ok(true)),
            Err(e) => connect_finish(Err(e)),
        },
        ConnectPhaseView::Finished { outcome } => connect_finish(outcome),
    }
}

/// The run as [`OpenNotebook::connect`] starts it, with its first request.
pub open spec fn connect_start(base: Seq<char>, embed: Seq<char>, password: Option<Seq<char>>) -> (
    ConnectRunView,
    RequestView,
) {
    let run = ConnectRunView { base, embed, password, phase: ConnectPhaseView::CheckDefaults };
    (run, connect_get(run, "/api/models/defaults"@, Expect::Defaults))
}

fn credential_request_body(embed_url: &str) -> (r: Body)
    ensures
        r@ == credential_body(embed_url@),
{
    let modalities = vec![String::from_str("embedding")];
    let r = Body::CreateCredential {
        name: String::from_str("bge-embed-rs"),
        provider: String::from_str("openai_compatible"),
        base_url: String::from_str(embed_url),
        modalities,
        api_key: String::from_str("sk-local"),
    };
    assert(strings_view(modalities@) =~= seq!["embedding"@]);
    r
}

impl ConnectRun {
    fn send(&self, method: Method, path: &str, body: Option<Body>, expect: Expect) -> (r: ConnectStep)
        ensures
            r@ == ConnectStepView::Send(
                request_view(
                    method,
                    self.base_url@,
                    path@,
                    opt_view(self.password),
                    opt_body_view(body),
                    expect,
                    connect_timeout(),
                ),
            ),
    {
        ConnectStep::Send(
            make_request(method, self.base_url.as_str(), path, opt_str(&self.password), body, expect, 5000),
        )
    }

    fn list_credentials(&self) -> (r: (ConnectPhase, ConnectStep))
        ensures
            (r.0@, r.1@) == list_credentials_next(self@),
    {
        (
            ConnectPhase::ListCredentials,
            self.send(Method::Get, "/api/credentials?provider=openai_compatible", None, Expect::Credentials),
        )
    }

    /// Feeds the reply to the last request; returns the next request, or the
    /// outcome once it is known. After the outcome is known every further call
    /// returns it again.
    pub fn advance(&mut self, reply: Reply) -> (r: ConnectStep)
        ensures
            final(self).base_url@ == old(self).base_url@,
            final(self).embed_url@ == old(self).embed_url@,
            opt_view(final(self).password) == opt_view(old(self).password),
            (final(self).phase@, r@) == connect_next(old(self)@, reply_view(reply)),
    {
        let ghost rv = reply_view(reply);
        let next: (ConnectPhase, ConnectStep) = match &self.phase {
            ConnectPhase::CheckDefaults => match reply {
                Ok(Answer::Defaults { default_embedding_model: Some(model) }) => (
                    ConnectPhase::CheckModels { model },
                    self.send(Method::Get, "/api/models?type=embedding", None, Expect::Models),
                ),
                _ => self.list_credentials(),
            },
            ConnectPhase::CheckModels { model } => match reply {
                Ok(Answer::Models(ms)) => {
                    proof {
                        assert(rv == Ok::<AnswerView, ApiErrorView>(AnswerView::Models(models_view(ms@))));
                    }
                    match find_model_with_id(&ms, model.as_str()) {
                        Some(i) => match &ms[i].credential {
                            Some(credential) => (
                                ConnectPhase::CheckCredentials { credential: credential.clone() },
                                self.send(Method::Get, "/api/credentials", None, Expect::Credentials),
                            ),
                            None => self.list_credentials(),
                        },
                        None => self.list_credentials(),
                    }
                },
                _ => self.list_credentials(),
            },
            ConnectPhase::CheckCredentials { credential } => match reply {
                Ok(Answer::Credentials(cs)) => {
                    proof {
                        assert(rv == Ok::<AnswerView, ApiErrorView>(AnswerView::Credentials(creds_view(cs@))));
                    }
                    let ours = match find_cred_with_id(&cs, credential.as_str()) {
                        Some(i) => match &cs[i].base_url {
                            Some(u) => str_eq(u.as_str(), self.embed_url.as_str()),
                            None => false,
                        },
                        None => false,
                    };
                    if ours {
                        (ConnectPhase::Finished { outcome: Ok(false) }, ConnectStep::Done(Ok(false)))
                    } else {
                        self.list_credentials()
                    }
                },
                _ => self.list_credentials(),
            },
            ConnectPhase::ListCredentials => match reply {
                Ok(Answer::Credentials(cs)) => {
                    proof {
                        assert(rv == Ok::<AnswerView, ApiErrorView>(AnswerView::Credentials(creds_view(cs@))));
                    }
                    match find_cred_for_url(&cs, self.embed_url.as_str()) {
                        Some(i) => (
                            ConnectPhase::ListModels { credential: cs[i].id.clone() },
                            self.send(Method::Get, "/api/models?type=embedding", None, Expect::Models),
                        ),
                        None => (
                            ConnectPhase::CreateCredential,
                            self.send(
                                Method::Post,
                                "/api/credentials",
                                Some(credential_request_body(self.embed_url.as_str())),
                                Expect::Credential,
                            ),
                        ),
                    }
                },
                Ok(_) => (
                    ConnectPhase::Finished { outcome: Err(ApiError::Unexpected) },
                    ConnectStep::Done(Err(ApiError::Unexpected)),
                ),
                Err(e) => (ConnectPhase::Finished { outcome: Err(e.duplicate()) }, ConnectStep::Done(Err(e))),
            },
            ConnectPhase::CreateCredential => match reply {
                Ok(Answer::Credential(c)) => (
                    ConnectPhase::ListModels { credential: c.id },
                    self.send(Method::Get, "/api/models?type=embedding", None, Expect::Models),
                ),
                Ok(_) => (
                    ConnectPhase::Finished { outcome: Err(ApiError::Unexpected) },
                    ConnectStep::Done(Err(ApiError::Unexpected)),
                ),
                Err(e) => (ConnectPhase::Finished { outcome: Err(e.duplicate()) }, ConnectStep::Done(Err(e))),
            },
            ConnectPhase::ListModels { credential } => match reply {
                Ok(Answer::Models(ms)) => {
                    proof {
                        assert(rv == Ok::<AnswerView, ApiErrorView>(AnswerView::Models(models_view(ms@))));
                    }
                    match find_model_for_cred(&ms, credential.as_str()) {
                        Some(i) => (
                            ConnectPhase::ReadDefaults { model: ms[i].id.clone() },
                            self.send(Method::Get, "/api/models/defaults", None, Expect::Defaults),
                        ),
                        None => {
                            let name = model_name(&ms, self.embed_url.as_str());
                            let body = Body::CreateModel {
                                name,
                                provider: String::from_str("openai_compatible"),
                                kind: String::from_str("embedding"),
                                credential: credential.clone(),
                            };
                            (
                                ConnectPhase::CreateModel { credential: credential.clone() },
                                self.send(Method::Post, "/api/models", Some(body), Expect::Model),
                            )
                        },
                    }
                },
                Ok(_) => (
                    ConnectPhase::Finished { outcome: Err(ApiError::Unexpected) },
                    ConnectStep::Done(Err(ApiError::Unexpected)),
                ),
                Err(e) => (ConnectPhase::Finished { outcome: Err(e.duplicate()) }, ConnectStep::Done(Err(e))),
            },
            ConnectPhase::CreateModel { credential } => match reply {
                Ok(Answer::Model(m)) => (
                    ConnectPhase::ReadDefaults { model: m.id },
                    self.send(Method::Get, "/api/models/defaults", None, Expect::Defaults),
                ),
                Ok(_) => (
                    ConnectPhase::Finished { outcome: Err(ApiError::Unexpected) },
                    ConnectStep::Done(Err(ApiError::Unexpected)),
                ),
                Err(ApiError::Http(400)) => (
                    ConnectPhase::Relist { credential: credential.clone() },
                    self.send(Method::Get, "/api/models?type=embedding", None, Expect::Models),
                ),
                Err(e) => (ConnectPhase::Finished { outcome: Err(e.duplicate()) }, ConnectStep::Done(Err(e))),
            },
            ConnectPhase::Relist { credential } => match reply {
                Ok(Answer::Models(ms)) => {
                    proof {
                        assert(rv == Ok::<AnswerView, ApiErrorView>(AnswerView::Models(models_view(ms@))));
                    }
                    match find_model_for_cred(&ms, credential.as_str()) {
                        Some(i) => (
                            ConnectPhase::ReadDefaults { model: ms[i].id.clone() },
                            self.send(Method::Get, "/api/models/defaults", None, Expect::Defaults),
                        ),
                        None => (
                            ConnectPhase::Finished { outcome: Err(ApiError::Http(400)) },
                            ConnectStep::Done(Err(ApiError::Http(400))),
                        ),
                    }
                },
                Ok(_) => (
                    ConnectPhase::Finished { outcome: Err(ApiError::Unexpected) },
                    ConnectStep::Done(Err(ApiError::Unexpected)),
                ),
                Err(e) => (ConnectPhase::Finished { outcome: Err(e.duplicate()) }, ConnectStep::Done(Err(e))),
            },
            ConnectPhase::ReadDefaults { model } => match reply {
                Ok(Answer::Defaults { default_embedding_model }) => {
                    let already = match &default_embedding_model {
                        Some(d) => str_eq(d.as_str(), model.as_str()),
                        None => false,
                    };
                    if already {
                        (
                            ConnectPhase::Finished { outcome: Ok(false) },
                            ConnectStep::Done(Ok(false)),
                        )
                    } else {
                        let body = Body::Defaults { default_embedding_model: model.clone() };
                        (
                            ConnectPhase::WriteDefaults,
                            self.send(Method::Put, "/api/models/defaults", Some(body), Expect::Anything),
                        )
                    }
                },
                Ok(_) => (
                    ConnectPhase::Finished { outcome: Err(ApiError::Unexpected) },
                    ConnectStep::Done(Err(ApiError::Unexpected)),
                ),
                Err(e) => (ConnectPhase::Finished { outcome: Err(e.duplicate()) }, ConnectStep::Done(Err(e))),
            },
            ConnectPhase::WriteDefaults => match reply {
                Ok(_) => (ConnectPhase::Finished { outcome: Ok(true) }, ConnectStep::Done(Ok(true))),
                Err(e) => (ConnectPhase::Finished { outcome: Err(e.duplicate()) }, ConnectStep::Done(Err(e))),
            },
            ConnectPhase::Finished { outcome } => match outcome {
                Ok(b) => (ConnectPhase::Finished { outcome: Ok(*b) }, ConnectStep::Done(Ok(*b))),
                Err(e) => (
                    ConnectPhase::Finished { outcome: Err(e.duplicate()) },
                    ConnectStep::Done(Err(e.duplicate())),
                ),
            },
        };
        self.phase = next.0;
        next.1
    }
}

impl OpenNotebook {
    /// Starts pointing Open Notebook's default embedding model at
    /// `embed_url`; returns the run and its first request.
    ///
    /// Does nothing when Open Notebook already points here: when the default
    /// embedding model's credential has `embed_url` as its `base_url` (what
    /// [`OpenNotebook::status`] reports as `Connected`), the run only reads
    /// and ends in `Ok(false)`.
    ///
    /// Otherwise idempotent and non-destructive: reuses the first credential whose
    /// `base_url` is `embed_url` (else creates one), reuses the first
    /// embedding model bound to that credential (else creates one named
    /// `bge-m3`, or `bge-m3 (bge-embed-rs :<port>)` when that name is taken),
    /// then points `default_embedding_model` at it unless it already does.
    /// Never updates or deletes an existing credential or model. The run ends
    /// in `Ok(true)` iff it changed the default embedding model.
    pub fn connect(base_url: &str, embed_url: &str, password: Option<&str>) -> (r: (ConnectRun, Request))
        ensures
            (r.0@, r.1@) == connect_start(base_url@, embed_url@, opt_str_view(password)),
    {
        let password = opt_owned(password);
        let req = make_request(
            Method::Get,
            base_url,
            "/api/models/defaults",
            opt_str(&password),
            None,
            Expect::Defaults,
            5000,
        );
        let run = ConnectRun {
            base_url: String::from_str(base_url),
            embed_url: String::from_str(embed_url),
            password,
            phase: ConnectPhase::CheckDefaults,
        };
        (run, req)
    }
}

// ---------------------------------------------------------------------------
// Manual-setup tools: no HTTP probe, just a ready-to-paste snippet
// ---------------------------------------------------------------------------

/// Which configuration snippet a manual-setup tool gets.
#[derive(Debug, Clone, Copy, PartialEq, Eq, Structural)]
pub enum Snippet {
    LibreChat,
    Dify,
}

/// A tool that is set up by hand: its name, 2-letter initials and the
/// snippet behind its "Copy config" button.
#[derive(Debug, Clone, Copy, PartialEq, Eq)]
pub struct ManualTool {
    pub name: &'static str,
    pub initials: &'static str,
    pub snippet: Snippet,
}

pub open spec fn spec_librechat_config(embed_url: Seq<char>) -> Seq<char> {
    "# .env (RAG API)\nEMBEDDINGS_PROVIDER=openai\nEMBEDDINGS_MODEL=bge-m3\nRAG_OPENAI_BASEURL="@ + embed_url
        + "\nRAG_OPENAI_API_KEY=sk-local\n"@
}

pub open spec fn spec_dify_config(embed_url: Seq<char>) -> Seq<char> {
    "Dify -> Settings -> Model Provider -> OpenAI-API-compatible -> Add Model:\n1. Model Type: Text Embedding\n2. Model Name: bge-m3\n3. API endpoint URL: "@
        + embed_url + "\n4. API Key: any non-empty value (not checked by this server)\n"@
}

/// LibreChat's RAG API environment (`RAG_OPENAI_BASEURL`,
/// `RAG_OPENAI_API_KEY`, `EMBEDDINGS_PROVIDER`).
pub fn librechat_config(embed_url: &str) -> (r: String)
    ensures
        r@ == spec_librechat_config(embed_url@),
{
    String::from_str(
        "# .env (RAG API)\nEMBEDDINGS_PROVIDER=openai\nEMBEDDINGS_MODEL=bge-m3\nRAG_OPENAI_BASEURL=",
    ).concat(embed_url).concat("\nRAG_OPENAI_API_KEY=sk-local\n")
}

/// Dify's steps for an OpenAI-API-compatible embedding model.
pub fn dify_config(embed_url: &str) -> (r: String)
    ensures
        r@ == spec_dify_config(embed_url@),
{
    String::from_str(
        "Dify -> Settings -> Model Provider -> OpenAI-API-compatible -> Add Model:\n1. Model Type: Text Embedding\n2. Model Name: bge-m3\n3. API endpoint URL: ",
    ).concat(embed_url).concat("\n4. API Key: any non-empty value (not checked by this server)\n")
}

impl ManualTool {
    /// The snippet for this tool, pointing at `embed_url`.
    pub fn config(&self, embed_url: &str) -> (r: String)
        ensures
            r@ == match self.snippet {
                Snippet::LibreChat => spec_librechat_config(embed_url@),
                Snippet::Dify => spec_dify_config(embed_url@),
            },
    {
        match self.snippet {
            Snippet::LibreChat => librechat_config(embed_url),
            Snippet::Dify => dify_config(embed_url),
        }
    }
}

/// The manual-setup tools, in screen order: LibreChat, then Dify.
pub fn manual_tools() -> (r: Vec<ManualTool>)
    ensures
        r@.len() == 2,
        r@[0].name@ == "LibreChat"@ && r@[0].initials@ == "LC"@ && r@[0].snippet == Snippet::LibreChat,
        r@[1].name@ == "Dify"@ && r@[1].initials@ == "DF"@ && r@[1].snippet == Snippet::Dify,
{
    vec![
        ManualTool { name: "LibreChat", initials: "LC", snippet: Snippet::LibreChat },
        ManualTool { name: "Dify", initials: "DF", snippet: Snippet::Dify },
    ]
}

// ---------------------------------------------------------------------------
// Whole runs: replies fed in order
// ---------------------------------------------------------------------------

pub open spec fn probe_with_phase(p: StatusProbeView, phase: ProbePhaseView) -> StatusProbeView {
    StatusProbeView { phase, ..p }
}

/// The probe after it has been fed `replies` in order.
pub open spec fn probe_after(p: StatusProbeView, replies: Seq<ReplyView>) -> StatusProbeView
    decreases replies.len(),
{
    if replies.len() == 0 {
        p
    } else {
        probe_after(probe_with_phase(p, probe_next(p, replies[0]).0), replies.drop_first())
    }
}

/// What the probe answers to each of `replies`, fed in order.
pub open spec fn probe_steps(p: StatusProbeView, replies: Seq<ReplyView>) -> Seq<ProbeStepView>
    decreases replies.len(),
{
    if replies.len() == 0 {
        Seq::empty()
    } else {
        seq![probe_next(p, replies[0]).1] + probe_steps(
            probe_with_phase(p, probe_next(p, replies[0]).0),
            replies.drop_first(),
        )
    }
}

pub open spec fn run_with_phase(run: ConnectRunView, phase: ConnectPhaseView) -> ConnectRunView {
    ConnectRunView { phase, ..run }
}

/// The connect run after it has been fed `replies` in order.
pub open spec fn connect_after(run: ConnectRunView, replies: Seq<ReplyView>) -> ConnectRunView
    decreases replies.len(),
{
    if replies.len() == 0 {
        run
    } else {
        connect_after(run_with_phase(run, connect_next(run, replies[0]).0), replies.drop_first())
    }
}

/// What the connect run answers to each of `replies`, fed in order.
pub open spec fn connect_steps(run: ConnectRunView, replies: Seq<ReplyView>) -> Seq<ConnectStepView>
    decreases replies.len(),
{
    if replies.len() == 0 {
        Seq::empty()
    } else {
        seq![connect_next(run, replies[0]).1] + connect_steps(
            run_with_phase(run, connect_next(run, replies[0]).0),
            replies.drop_first(),
        )
    }
}

/// How many more requests a probe in `phase` can make at most.
pub open spec fn probe_rank(phase: ProbePhaseView) -> nat {
    match phase {
        ProbePhaseView::Detect => 3,
        ProbePhaseView::Defaults => 2,
        ProbePhaseView::Models { .. } => 1,
        ProbePhaseView::Credentials { .. } => 0,
        ProbePhaseView::Finished { .. } => 0,
    }
}

/// How many more requests a connect run in `phase` can make at most.
pub open spec fn connect_rank(phase: ConnectPhaseView) -> nat {
    match phase {
        ConnectPhaseView::CheckDefaults => 9,
        ConnectPhaseView::CheckModels { .. } => 8,
        ConnectPhaseView::CheckCredentials { .. } => 7,
        ConnectPhaseView::ListCredentials => 6,
        ConnectPhaseView::CreateCredential => 5,
        ConnectPhaseView::ListModels { .. } => 4,
        ConnectPhaseView::CreateModel { .. } => 3,
        ConnectPhaseView::Relist { .. } => 2,
        ConnectPhaseView::ReadDefaults { .. } => 1,
        ConnectPhaseView::WriteDefaults => 0,
        ConnectPhaseView::Finished { .. } => 0,
    }
}

/// A request that creates a new credential or model, points the default
/// embedding model somewhere, or only reads: nothing that edits or deletes
/// an existing credential or model.
pub open spec fn creates_or_reads(req: RequestView, base: Seq<char>) -> bool {
    ||| req.method == Method::Get
    ||| req.method == Method::Post && req.url == base + "/api/credentials"@
    ||| req.method == Method::Post && req.url == base + "/api/models"@
    ||| req.method == Method::Put && req.url == base + "/api/models/defaults"@
        && req.body matches Some(BodyView::Defaults { .. })
}

} // verus!
