use bge_embed_rs::connectors::{
    dify_config, embedding_url, librechat_config, manual_tools, port_of, Answer, ApiError, Body,
    ConnectStep, CredentialSummary, Expect, Method, ModelSummary, OpenNotebook, ProbeStep, Reply,
    Request, Snippet, Status,
};

/// Just enough of Open Notebook's API to drive `status`/`connect`, answering
/// the requests the machines hand out, in memory.
struct FakeNotebook {
    base_url: String,
    credentials: Vec<(String, String, String)>,    // (id, base_url, provider)
    models: Vec<(String, String, String, String)>, // (id, name, provider, credential)
    default_embedding_model: Option<String>,
    next_id: u32,
    password: Option<&'static str>,
    writes: usize,
}

impl FakeNotebook {
    fn new(password: Option<&'static str>) -> Self {
        FakeNotebook {
            base_url: "http://127.0.0.1:40123".to_string(),
            credentials: Vec::new(),
            models: Vec::new(),
            default_embedding_model: None,
            next_id: 0,
            password,
            writes: 0,
        }
    }

    fn serve(&mut self, req: &Request) -> Reply {
        let Some(path) = req.url.strip_prefix(self.base_url.as_str()) else {
            return Err(ApiError::Network("connection refused".to_string()));
        };
        if path == "/" && req.method == Method::Get {
            return Ok(Answer::Root { message: "Open Notebook API is running".to_string() });
        }
        if let Some(expected) = self.password {
            if req.authorization.as_deref() != Some(format!("Bearer {expected}").as_str()) {
                return Err(ApiError::from_status(401));
            }
        }
        let (route, query) = match path.split_once('?') {
            Some((r, q)) => (r, Some(q)),
            None => (path, None),
        };
        match (req.method, route) {
            (Method::Get, "/api/credentials") => {
                let filter = query.and_then(|q| q.strip_prefix("provider="));
                let items = self
                    .credentials
                    .iter()
                    .filter(|(_, _, p)| filter.is_none_or(|f| f == p))
                    .map(|(id, url, _)| CredentialSummary { id: id.clone(), base_url: Some(url.clone()) })
                    .collect();
                Ok(Answer::Credentials(items))
            }
            (Method::Post, "/api/credentials") => match &req.body {
                Some(Body::CreateCredential { base_url, provider, .. }) => {
                    self.writes += 1;
                    self.next_id += 1;
                    let id = format!("credential:{}", self.next_id);
                    self.credentials.push((id.clone(), base_url.clone(), provider.clone()));
                    Ok(Answer::Credential(CredentialSummary { id, base_url: Some(base_url.clone()) }))
                }
                _ => Err(ApiError::from_status(422)),
            },
            (Method::Get, "/api/models") => Ok(Answer::Models(
                self.models
                    .iter()
                    .map(|(id, name, provider, cred)| ModelSummary {
                        id: id.clone(),
                        name: name.clone(),
                        provider: provider.clone(),
                        credential: Some(cred.clone()),
                    })
                    .collect(),
            )),
            (Method::Post, "/api/models") => match &req.body {
                Some(Body::CreateModel { name, provider, credential, .. }) => {
                    if self.models.iter().any(|(_, n, p, _)| n.eq_ignore_ascii_case(name) && p == provider) {
                        return Err(ApiError::from_status(400));
                    }
                    self.writes += 1;
                    self.next_id += 1;
                    let id = format!("model:{}", self.next_id);
                    self.models.push((id.clone(), name.clone(), provider.clone(), credential.clone()));
                    Ok(Answer::Model(ModelSummary {
                        id,
                        name: name.clone(),
                        provider: provider.clone(),
                        credential: Some(credential.clone()),
                    }))
                }
                _ => Err(ApiError::from_status(422)),
            },
            (Method::Get, "/api/models/defaults") => Ok(Answer::Defaults {
                default_embedding_model: self.default_embedding_model.clone(),
            }),
            (Method::Put, "/api/models/defaults") => match &req.body {
                Some(Body::Defaults { default_embedding_model }) => {
                    self.writes += 1;
                    self.default_embedding_model = Some(default_embedding_model.clone());
                    Ok(Answer::Accepted)
                }
                _ => Err(ApiError::from_status(422)),
            },
            _ => Err(ApiError::from_status(404)),
        }
    }
}

fn detect(fake: &mut FakeNotebook, base_url: &str) -> bool {
    let reply = fake.serve(&OpenNotebook::detect_request(base_url));
    OpenNotebook::detect(&reply)
}

fn status(fake: &mut FakeNotebook, base_url: &str, embed_url: &str, password: Option<&str>) -> Status {
    let (mut probe, mut req) = OpenNotebook::status(base_url, embed_url, password);
    loop {
        match probe.advance(fake.serve(&req)) {
            ProbeStep::Send(next) => req = next,
            ProbeStep::Done(s) => return s,
        }
    }
}

fn connect(fake: &mut FakeNotebook, base_url: &str, embed_url: &str, password: Option<&str>) -> Result<bool, ApiError> {
    let (mut run, mut req) = OpenNotebook::connect(base_url, embed_url, password);
    loop {
        match run.advance(fake.serve(&req)) {
            ConnectStep::Send(next) => req = next,
            ConnectStep::Done(outcome) => return outcome,
        }
    }
}

#[test]
fn detect_matches_fingerprint_only() {
    let mut fake = FakeNotebook::new(None);
    let base_url = fake.base_url.clone();
    assert!(detect(&mut fake, &base_url));
    assert!(!detect(&mut fake, "http://127.0.0.1:1")); // nothing listening
}

#[test]
fn connect_is_idempotent_and_flips_default() {
    let mut fake = FakeNotebook::new(None);
    let base_url = fake.base_url.clone();
    let embed_url = "http://127.0.0.1:11435/v1";

    assert_eq!(status(&mut fake, &base_url, embed_url, None), Status::Found);

    let changed = connect(&mut fake, &base_url, embed_url, None).unwrap();
    assert!(changed, "first connect must flip the default");
    assert_eq!(fake.credentials.len(), 1);
    assert_eq!(fake.models.len(), 1);
    assert_eq!(fake.models[0].1, "bge-m3");
    assert_eq!(fake.default_embedding_model.as_deref(), Some(fake.models[0].0.as_str()));
    assert_eq!(status(&mut fake, &base_url, embed_url, None), Status::Connected);

    // Second connect must not create a duplicate credential or model,
    // and must report nothing changed.
    let changed = connect(&mut fake, &base_url, embed_url, None).unwrap();
    assert!(!changed, "second connect is a no-op");
    assert_eq!(fake.credentials.len(), 1);
    assert_eq!(fake.models.len(), 1);
}

#[test]
fn password_protected_server_reports_needs_key_until_connect_supplies_it() {
    let mut fake = FakeNotebook::new(Some("hunter2"));
    let base_url = fake.base_url.clone();
    let embed_url = "http://127.0.0.1:11435/v1";

    assert_eq!(status(&mut fake, &base_url, embed_url, None), Status::NeedsKey);
    assert!(connect(&mut fake, &base_url, embed_url, None).is_err());

    connect(&mut fake, &base_url, embed_url, Some("hunter2")).unwrap();
    assert_eq!(status(&mut fake, &base_url, embed_url, Some("hunter2")), Status::Connected);
}

#[test]
fn preexisting_bge_m3_on_another_credential_is_left_alone() {
    let mut fake = FakeNotebook::new(None);
    let base_url = fake.base_url.clone();
    let embed_url = "http://127.0.0.1:11435/v1";

    fake.next_id += 1;
    let other_cred_id = format!("credential:{}", fake.next_id);
    fake.credentials.push((
        other_cred_id.clone(),
        "http://127.0.0.1:9999/v1".to_string(),
        "openai_compatible".to_string(),
    ));
    fake.next_id += 1;
    let other_model_id = format!("model:{}", fake.next_id);
    fake.models.push((
        other_model_id.clone(),
        "bge-m3".to_string(),
        "openai_compatible".to_string(),
        other_cred_id.clone(),
    ));
    fake.default_embedding_model = Some(other_model_id.clone());

    let changed = connect(&mut fake, &base_url, embed_url, None).unwrap();
    assert!(changed);

    assert_eq!(fake.credentials.len(), 2, "our credential is new, the old one is untouched");
    assert_eq!(fake.models.len(), 2, "our model is new, the old bge-m3 is untouched");

    // The old model/credential pair is exactly as it was.
    assert!(fake
        .credentials
        .iter()
        .any(|(id, url, _)| id == &other_cred_id && url == "http://127.0.0.1:9999/v1"));
    assert!(fake
        .models
        .iter()
        .any(|(id, name, _, cred)| id == &other_model_id && name == "bge-m3" && cred == &other_cred_id));

    // Our new model is bound to our credential, distinctly named (not
    // exactly "bge-m3", since that name is taken), and is now default.
    let our_cred_id = fake.credentials.iter().find(|(_, url, _)| url == embed_url).unwrap().0.clone();
    let our_model = fake.models.iter().find(|(_, _, _, cred)| cred == &our_cred_id).unwrap().clone();
    assert_ne!(our_model.0, other_model_id);
    assert_ne!(our_model.1, "bge-m3");
    assert!(our_model.1.starts_with("bge-m3"), "name: {}", our_model.1);
    assert_eq!(fake.default_embedding_model.as_deref(), Some(our_model.0.as_str()));

    assert_eq!(status(&mut fake, &base_url, embed_url, None), Status::Connected);

    // Second connect creates nothing new at all.
    let changed = connect(&mut fake, &base_url, embed_url, None).unwrap();
    assert!(!changed);
    assert_eq!(fake.credentials.len(), 2);
    assert_eq!(fake.models.len(), 2);
}

#[test]
fn disambiguated_model_name_carries_the_port() {
    let mut fake = FakeNotebook::new(None);
    let base_url = fake.base_url.clone();
    fake.credentials.push(("c".into(), "http://127.0.0.1:9999/v1".into(), "openai_compatible".into()));
    fake.models.push(("m".into(), "BGE-M3".into(), "openai_compatible".into(), "c".into()));
    connect(&mut fake, &base_url, "http://host.docker.internal:11435/v1", None).unwrap();
    assert_eq!(fake.models[1].1, "bge-m3 (bge-embed-rs :11435)");
    assert_eq!(fake.models[1].3, fake.credentials[1].0);
}

#[test]
fn connecting_an_already_connected_notebook_writes_nothing() {
    let mut fake = FakeNotebook::new(None);
    let base_url = fake.base_url.clone();
    let embed_url = "http://127.0.0.1:11435/v1";
    fake.credentials.push(("c1".into(), embed_url.into(), "openai_compatible".into()));
    fake.models.push(("m1".into(), "anything".into(), "openai_compatible".into(), "c1".into()));
    fake.default_embedding_model = Some("m1".into());
    assert_eq!(status(&mut fake, &base_url, embed_url, None), Status::Connected);
    assert_eq!(connect(&mut fake, &base_url, embed_url, None), Ok(false));
    assert_eq!(fake.writes, 0);
}

#[test]
fn a_model_named_bge_m3_on_another_server_is_not_connected() {
    let mut fake = FakeNotebook::new(None);
    let base_url = fake.base_url.clone();
    fake.credentials.push(("c1".into(), "http://127.0.0.1:9999/v1".into(), "openai_compatible".into()));
    fake.models.push(("m1".into(), "bge-m3".into(), "openai_compatible".into(), "c1".into()));
    fake.default_embedding_model = Some("m1".into());
    assert_eq!(status(&mut fake, &base_url, "http://127.0.0.1:11435/v1", None), Status::Found);
}

#[test]
fn status_not_found_when_nothing_answers() {
    let mut fake = FakeNotebook::new(None);
    assert_eq!(status(&mut fake, "http://127.0.0.1:1", "http://127.0.0.1:11435/v1", None), Status::NotFound);
}

#[test]
fn status_not_found_for_another_service() {
    let (mut probe, _) = OpenNotebook::status("http://x", "http://127.0.0.1:11435/v1", None);
    let step = probe.advance(Ok(Answer::Root { message: "Welcome to nginx".into() }));
    assert_eq!(step, ProbeStep::Done(Status::NotFound));
    // A finished probe keeps its status.
    assert_eq!(probe.advance(Err(ApiError::Unexpected)), ProbeStep::Done(Status::NotFound));
}

#[test]
fn status_found_when_no_default_model() {
    let mut fake = FakeNotebook::new(None);
    let base_url = fake.base_url.clone();
    assert_eq!(status(&mut fake, &base_url, "http://127.0.0.1:11435/v1", None), Status::Found);
}

#[test]
fn status_requests_carry_the_password() {
    let (mut probe, first) = OpenNotebook::status("http://on:5055", "http://e/v1", Some("pw"));
    assert_eq!(first.url, "http://on:5055/");
    assert_eq!(first.authorization, None);
    assert_eq!(first.method, Method::Get);
    assert_eq!(first.expect, Expect::Root);
    assert_eq!(first.timeout_ms, 1500);
    let step = probe.advance(Ok(Answer::Root { message: "Open Notebook API is running".into() }));
    match step {
        ProbeStep::Send(req) => {
            assert_eq!(req.url, "http://on:5055/api/models/defaults");
            assert_eq!(req.authorization.as_deref(), Some("Bearer pw"));
            assert_eq!(req.expect, Expect::Defaults);
        }
        other => panic!("unexpected {other:?}"),
    }
}

#[test]
fn connect_first_reads_the_defaults_then_lists_openai_credentials() {
    let (mut run, first) = OpenNotebook::connect("http://on:5055", "http://e/v1", None);
    assert_eq!(first.url, "http://on:5055/api/models/defaults");
    assert_eq!(first.method, Method::Get);
    assert_eq!(first.expect, Expect::Defaults);
    assert_eq!(first.authorization, None);
    assert_eq!(first.timeout_ms, 5000);
    match run.advance(Ok(Answer::Defaults { default_embedding_model: None })) {
        ConnectStep::Send(req) => {
            assert_eq!(req.url, "http://on:5055/api/credentials?provider=openai_compatible");
            assert_eq!(req.method, Method::Get);
            assert_eq!(req.expect, Expect::Credentials);
        }
        other => panic!("unexpected {other:?}"),
    }
}

#[test]
fn connect_checks_the_default_models_credential_first() {
    let (mut run, _) = OpenNotebook::connect("http://on", "http://e/v1", Some("pw"));
    match run.advance(Ok(Answer::Defaults { default_embedding_model: Some("m2".into()) })) {
        ConnectStep::Send(req) => {
            assert_eq!(req.url, "http://on/api/models?type=embedding");
            assert_eq!(req.authorization.as_deref(), Some("Bearer pw"));
        }
        other => panic!("unexpected {other:?}"),
    }
    let m2 = ModelSummary {
        id: "m2".into(),
        name: "whatever".into(),
        provider: "openai_compatible".into(),
        credential: Some("c2".into()),
    };
    match run.advance(Ok(Answer::Models(vec![m2]))) {
        ConnectStep::Send(req) => {
            assert_eq!(req.method, Method::Get);
            assert_eq!(req.url, "http://on/api/credentials");
        }
        other => panic!("unexpected {other:?}"),
    }
    let c2 = CredentialSummary { id: "c2".into(), base_url: Some("http://e/v1".into()) };
    assert_eq!(run.advance(Ok(Answer::Credentials(vec![c2]))), ConnectStep::Done(Ok(false)));
}

#[test]
fn connect_goes_on_when_the_default_points_elsewhere() {
    let (mut run, _) = OpenNotebook::connect("http://on", "http://e/v1", None);
    run.advance(Ok(Answer::Defaults { default_embedding_model: Some("m2".into()) }));
    let m2 = ModelSummary {
        id: "m2".into(),
        name: "whatever".into(),
        provider: "openai_compatible".into(),
        credential: Some("c2".into()),
    };
    run.advance(Ok(Answer::Models(vec![m2])));
    let c2 = CredentialSummary { id: "c2".into(), base_url: Some("http://other:1/v1".into()) };
    match run.advance(Ok(Answer::Credentials(vec![c2]))) {
        ConnectStep::Send(req) => assert_eq!(req.url, "http://on/api/credentials?provider=openai_compatible"),
        other => panic!("unexpected {other:?}"),
    }
}

#[test]
fn connect_is_idle_when_the_default_is_on_a_second_matching_credential() {
    let mut fake = FakeNotebook::new(None);
    let base_url = fake.base_url.clone();
    let embed_url = "http://127.0.0.1:11435/v1";
    fake.credentials.push(("c1".into(), embed_url.into(), "openai_compatible".into()));
    fake.credentials.push(("c2".into(), embed_url.into(), "openai_compatible".into()));
    fake.models.push(("m1".into(), "bge-m3".into(), "openai_compatible".into(), "c1".into()));
    fake.models.push(("m2".into(), "mine".into(), "openai_compatible".into(), "c2".into()));
    fake.default_embedding_model = Some("m2".into());
    assert_eq!(status(&mut fake, &base_url, embed_url, None), Status::Connected);
    assert_eq!(connect(&mut fake, &base_url, embed_url, None), Ok(false));
    assert_eq!(fake.writes, 0);
    assert_eq!(fake.default_embedding_model.as_deref(), Some("m2"));
    assert_eq!(fake.credentials.len(), 2);
    assert_eq!(fake.models.len(), 2);
}

#[test]
fn connect_is_idle_when_the_default_credential_has_another_provider() {
    let mut fake = FakeNotebook::new(None);
    let base_url = fake.base_url.clone();
    let embed_url = "http://127.0.0.1:11435/v1";
    fake.credentials.push(("c1".into(), embed_url.into(), "openai".into()));
    fake.models.push(("m1".into(), "bge-m3".into(), "openai".into(), "c1".into()));
    fake.default_embedding_model = Some("m1".into());
    assert_eq!(status(&mut fake, &base_url, embed_url, None), Status::Connected);
    assert_eq!(connect(&mut fake, &base_url, embed_url, None), Ok(false));
    assert_eq!(fake.writes, 0);
    assert_eq!(fake.credentials.len(), 1);
    assert_eq!(fake.models.len(), 1);
}

#[test]
fn connect_creates_credential_with_placeholder_key() {
    let (mut run, _) = OpenNotebook::connect("http://on", "http://e:1/v1", None);
    run.advance(Ok(Answer::Defaults { default_embedding_model: None }));
    match run.advance(Ok(Answer::Credentials(vec![]))) {
        ConnectStep::Send(req) => {
            assert_eq!(req.method, Method::Post);
            assert_eq!(req.url, "http://on/api/credentials");
            assert_eq!(
                req.body,
                Some(Body::CreateCredential {
                    name: "bge-embed-rs".into(),
                    provider: "openai_compatible".into(),
                    base_url: "http://e:1/v1".into(),
                    modalities: vec!["embedding".into()],
                    api_key: "sk-local".into(),
                })
            );
        }
        other => panic!("unexpected {other:?}"),
    }
}

#[test]
fn connect_reports_request_errors() {
    let (mut run, _) = OpenNotebook::connect("http://on", "http://e/v1", None);
    run.advance(Ok(Answer::Defaults { default_embedding_model: None }));
    assert_eq!(run.advance(Err(ApiError::Http(500))), ConnectStep::Done(Err(ApiError::Http(500))));
    assert_eq!(run.advance(Ok(Answer::Accepted)), ConnectStep::Done(Err(ApiError::Http(500))));
}

#[test]
fn connect_rejects_a_reply_of_the_wrong_kind() {
    let (mut run, _) = OpenNotebook::connect("http://on", "http://e/v1", None);
    run.advance(Ok(Answer::Defaults { default_embedding_model: None }));
    assert_eq!(run.advance(Ok(Answer::Accepted)), ConnectStep::Done(Err(ApiError::Unexpected)));
}

fn lists_openai_credentials(step: ConnectStep) -> bool {
    matches!(step, ConnectStep::Send(req)
        if req.url == "http://on/api/credentials?provider=openai_compatible" && req.method == Method::Get)
}

#[test]
fn a_failed_check_read_goes_on_to_look_for_the_credential() {
    // The defaults read fails.
    let (mut run, _) = OpenNotebook::connect("http://on", "http://e/v1", None);
    assert!(lists_openai_credentials(run.advance(Err(ApiError::Http(500)))));
    // The defaults read comes back as the wrong kind.
    let (mut run, _) = OpenNotebook::connect("http://on", "http://e/v1", None);
    assert!(lists_openai_credentials(run.advance(Ok(Answer::Accepted))));
    // The models read fails.
    let (mut run, _) = OpenNotebook::connect("http://on", "http://e/v1", None);
    run.advance(Ok(Answer::Defaults { default_embedding_model: Some("m".into()) }));
    assert!(lists_openai_credentials(run.advance(Err(ApiError::Unauthorized))));
    // The unfiltered credentials read fails.
    let (mut run, _) = OpenNotebook::connect("http://on", "http://e/v1", None);
    run.advance(Ok(Answer::Defaults { default_embedding_model: Some("m".into()) }));
    let m = ModelSummary {
        id: "m".into(),
        name: "x".into(),
        provider: "openai_compatible".into(),
        credential: Some("c".into()),
    };
    run.advance(Ok(Answer::Models(vec![m])));
    assert!(lists_openai_credentials(run.advance(Err(ApiError::Http(404)))));
    // After falling through, the run goes on as usual.
    let creds = vec![CredentialSummary { id: "c".into(), base_url: Some("http://e/v1".into()) }];
    match run.advance(Ok(Answer::Credentials(creds))) {
        ConnectStep::Send(req) => assert_eq!(req.url, "http://on/api/models?type=embedding"),
        other => panic!("unexpected {other:?}"),
    }
}

#[test]
fn duplicate_name_race_rechecks_our_credential() {
    let (mut run, _) = OpenNotebook::connect("http://on", "http://e/v1", None);
    run.advance(Ok(Answer::Defaults { default_embedding_model: None }));
    let creds = vec![CredentialSummary { id: "c".into(), base_url: Some("http://e/v1".into()) }];
    assert!(matches!(run.advance(Ok(Answer::Credentials(creds))), ConnectStep::Send(_)));
    assert!(matches!(run.advance(Ok(Answer::Models(vec![]))), ConnectStep::Send(_)));
    // The create is refused as a duplicate: the models are listed again.
    match run.advance(Err(ApiError::Http(400))) {
        ConnectStep::Send(req) => assert_eq!(req.url, "http://on/api/models?type=embedding"),
        other => panic!("unexpected {other:?}"),
    }
    let ours = ModelSummary {
        id: "m9".into(),
        name: "bge-m3".into(),
        provider: "openai_compatible".into(),
        credential: Some("c".into()),
    };
    match run.advance(Ok(Answer::Models(vec![ours]))) {
        ConnectStep::Send(req) => assert_eq!(req.url, "http://on/api/models/defaults"),
        other => panic!("unexpected {other:?}"),
    }
    match run.advance(Ok(Answer::Defaults { default_embedding_model: None })) {
        ConnectStep::Send(req) => {
            assert_eq!(req.method, Method::Put);
            assert_eq!(req.body, Some(Body::Defaults { default_embedding_model: "m9".into() }));
        }
        other => panic!("unexpected {other:?}"),
    }
    assert_eq!(run.advance(Ok(Answer::Accepted)), ConnectStep::Done(Ok(true)));
}

#[test]
fn duplicate_name_without_our_model_fails_with_the_400() {
    let (mut run, _) = OpenNotebook::connect("http://on", "http://e/v1", None);
    run.advance(Ok(Answer::Defaults { default_embedding_model: None }));
    let creds = vec![CredentialSummary { id: "c".into(), base_url: Some("http://e/v1".into()) }];
    run.advance(Ok(Answer::Credentials(creds)));
    run.advance(Ok(Answer::Models(vec![])));
    run.advance(Err(ApiError::Http(400)));
    assert_eq!(run.advance(Ok(Answer::Models(vec![]))), ConnectStep::Done(Err(ApiError::Http(400))));
}

#[test]
fn embedding_url_local_and_docker() {
    assert_eq!(embedding_url("11435", false), "http://127.0.0.1:11435/v1");
    assert_eq!(embedding_url("11435", true), "http://host.docker.internal:11435/v1");
}

#[test]
fn port_of_takes_text_after_last_colon() {
    assert_eq!(port_of("http://127.0.0.1:11435/v1"), "11435");
    assert_eq!(port_of("http://host.docker.internal:8080/v1/v1"), "8080");
    assert_eq!(port_of("no-colon"), "no-colon");
    assert_eq!(port_of("http://h:"), "");
}

#[test]
fn error_messages() {
    assert_eq!(ApiError::Unauthorized.message(), "unauthorized");
    assert_eq!(ApiError::Http(404).message(), "http 404");
    assert_eq!(ApiError::Network("refused".into()).message(), "network error: refused");
    assert_eq!(ApiError::from_status(401), ApiError::Unauthorized);
    assert_eq!(ApiError::from_status(400), ApiError::Http(400));
}

#[test]
fn manual_tool_snippets() {
    let tools = manual_tools();
    assert_eq!(tools.len(), 2);
    assert_eq!((tools[0].name, tools[0].initials, tools[0].snippet), ("LibreChat", "LC", Snippet::LibreChat));
    assert_eq!((tools[1].name, tools[1].initials, tools[1].snippet), ("Dify", "DF", Snippet::Dify));
    let url = "http://127.0.0.1:11435/v1";
    assert_eq!(
        librechat_config(url),
        "# .env (RAG API)\nEMBEDDINGS_PROVIDER=openai\nEMBEDDINGS_MODEL=bge-m3\nRAG_OPENAI_BASEURL=http://127.0.0.1:11435/v1\nRAG_OPENAI_API_KEY=sk-local\n"
    );
    assert_eq!(
        dify_config(url),
        "Dify -> Settings -> Model Provider -> OpenAI-API-compatible -> Add Model:\n\
         1. Model Type: Text Embedding\n\
         2. Model Name: bge-m3\n\
         3. API endpoint URL: http://127.0.0.1:11435/v1\n\
         4. API Key: any non-empty value (not checked by this server)\n"
    );
    assert_eq!(tools[0].config(url), librechat_config(url));
    assert_eq!(tools[1].config(url), dify_config(url));
}

#[test]
fn open_notebook_constants() {
    assert_eq!(OpenNotebook::NAME, "Open Notebook");
    assert_eq!(OpenNotebook::INITIALS, "ON");
    assert_eq!(OpenNotebook::DEFAULT_BASE_URL, "http://127.0.0.1:5055");
}

#[test]
fn port_of_reads_back_embedding_url_port() {
    assert_eq!(port_of(&embedding_url("11435", false)), "11435");
    assert_eq!(port_of(&embedding_url("8080", true)), "8080");
}
