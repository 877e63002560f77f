//! Properties of the Open Notebook exchange that span steps or hold of
//! every step.

use vstd::prelude::*;
use crate::text::{after_last, has_prefix, has_suffix, trim_end_all};
use crate::connectors::{spec_embedding_url, spec_port_of,
    AnswerView, ApiErrorView, BodyView, ConnectPhaseView, ConnectStepView, CredentialView, Expect, Method,
    ModelView, ProbePhaseView, ProbeStepView, ReplyView, Status, connect_after,
    connect_get, connect_next, connect_rank, connect_start, connect_steps,
    cred_with_id, creates_or_reads, fingerprint, model_with_id, probe_after, probe_get, probe_next, probe_rank, probe_start,
    probe_steps,
};

verus! {

/// Connecting never edits or deletes: every request a connect run makes
/// reads, creates a new credential or model, or sets the default embedding
/// model, whatever the replies were.
pub proof fn connect_only_reads_creates_or_sets_default(
    base: Seq<char>,
    embed: Seq<char>,
    password: Option<Seq<char>>,
    phase: ConnectPhaseView,
    reply: ReplyView,
)
    ensures
        connect_start(base, embed, password).1.method == Method::Get,
        ({
            let run = crate::connectors::ConnectRunView { base, embed, password, phase };
            connect_next(run, reply).1 matches ConnectStepView::Send(req) ==> creates_or_reads(req, base)
        }),
{
}

/// Every connect run ends: each request it makes moves it to a phase of
/// lower rank, and once it reports its outcome it stays finished.
pub proof fn connect_run_ends(run: crate::connectors::ConnectRunView, reply: ReplyView)
    ensures
        ({
            let (phase, step) = connect_next(run, reply);
            &&& step is Send ==> connect_rank(phase) < connect_rank(run.phase)
            &&& step is Done ==> phase is Finished
        }),
{
}

/// Every status probe ends: each request it makes moves it to a phase of
/// lower rank, and once it reports the status it stays finished.
pub proof fn status_probe_ends(p: crate::connectors::StatusProbeView, reply: ReplyView)
    ensures
        ({
            let (phase, step) = probe_next(p, reply);
            &&& step is Send ==> probe_rank(phase) < probe_rank(p.phase)
            &&& step is Done ==> phase is Finished
        }),
{
}

/// Connecting does nothing when Open Notebook already points at this
/// server: fed the defaults, the embedding models and the credentials on
/// which the status probe reports `Connected`, the connect run only reads
/// them, one `GET` after another, and reports that nothing changed.
pub proof fn connect_leaves_a_connected_notebook_alone(
    base: Seq<char>,
    embed: Seq<char>,
    password: Option<Seq<char>>,
    probe_password: Option<Seq<char>>,
    default_model: Option<Seq<char>>,
    models: Seq<ModelView>,
    creds: Seq<CredentialView>,
)
    requires
        probe_after(
            probe_start(base, embed, probe_password).0,
            seq![
                Ok::<AnswerView, ApiErrorView>(AnswerView::Root { message: fingerprint() }),
                Ok::<AnswerView, ApiErrorView>(AnswerView::Defaults { default_embedding_model: default_model }),
                Ok::<AnswerView, ApiErrorView>(AnswerView::Models(models)),
                Ok::<AnswerView, ApiErrorView>(AnswerView::Credentials(creds)),
            ],
        ).phase == (ProbePhaseView::Finished { status: Status::Connected }),
    ensures
        ({
            let (run, first) = connect_start(base, embed, password);
            let replies = seq![
                Ok::<AnswerView, ApiErrorView>(AnswerView::Defaults { default_embedding_model: default_model }),
                Ok::<AnswerView, ApiErrorView>(AnswerView::Models(models)),
                Ok::<AnswerView, ApiErrorView>(AnswerView::Credentials(creds)),
            ];
            &&& first == connect_get(run, "/api/models/defaults"@, Expect::Defaults)
            &&& connect_steps(run, replies) == seq![
                ConnectStepView::Send(connect_get(run, "/api/models?type=embedding"@, Expect::Models)),
                ConnectStepView::Send(connect_get(run, "/api/credentials"@, Expect::Credentials)),
                ConnectStepView::Done(Ok(false)),
            ]
            &&& connect_after(run, replies).phase == ConnectPhaseView::Finished { outcome: Ok(false) }
        }),
{
    status_connected_iff_default_credential_is_ours(
        base,
        embed,
        probe_password,
        fingerprint(),
        default_model,
        models,
        creds,
    );
    let (run, first) = connect_start(base, embed, password);
    let replies = seq![
        Ok::<AnswerView, ApiErrorView>(AnswerView::Defaults { default_embedding_model: default_model }),
        Ok::<AnswerView, ApiErrorView>(AnswerView::Models(models)),
        Ok::<AnswerView, ApiErrorView>(AnswerView::Credentials(creds)),
    ];
    reveal_with_fuel(connect_steps, 4);
    reveal_with_fuel(connect_after, 4);
    assert(replies.drop_first() =~= seq![replies[1], replies[2]]);
    assert(replies.drop_first().drop_first() =~= seq![replies[2]]);
    assert(replies.drop_first().drop_first().drop_first() =~= Seq::<ReplyView>::empty());
    assert(connect_steps(run, replies) =~= seq![
        ConnectStepView::Send(connect_get(run, "/api/models?type=embedding"@, Expect::Models)),
        ConnectStepView::Send(connect_get(run, "/api/credentials"@, Expect::Credentials)),
        ConnectStepView::Done(Ok(false)),
    ]);
}

/// The status of an Open Notebook whose every reply is read from one state
/// of its data (root `message`, default embedding model, embedding models,
/// credentials): `Connected` exactly when it identifies as Open Notebook and
/// the default model's credential has `embed` as its `base_url`; `Found`
/// whenever it identifies as Open Notebook but is not wired to `embed`.
pub proof fn status_connected_iff_default_credential_is_ours(
    base: Seq<char>,
    embed: Seq<char>,
    password: Option<Seq<char>>,
    message: Seq<char>,
    default_model: Option<Seq<char>>,
    models: Seq<ModelView>,
    creds: Seq<CredentialView>,
)
    ensures
        ({
            let (p, first) = probe_start(base, embed, password);
            let replies = seq![
                Ok::<AnswerView, ApiErrorView>(AnswerView::Root { message }),
                Ok::<AnswerView, ApiErrorView>(AnswerView::Defaults { default_embedding_model: default_model }),
                Ok::<AnswerView, ApiErrorView>(AnswerView::Models(models)),
                Ok::<AnswerView, ApiErrorView>(AnswerView::Credentials(creds)),
            ];
            let wired = {
                &&& default_model matches Some(d)
                &&& model_with_id(models, d) matches Some(i)
                &&& models[i].credential matches Some(cred)
                &&& cred_with_id(creds, cred) matches Some(k)
                &&& creds[k].base_url == Some(embed)
            };
            let fin = probe_after(p, replies).phase;
            &&& message == fingerprint() && wired ==> fin == ProbePhaseView::Finished {
                status: Status::Connected,
            }
            &&& message == fingerprint() && !wired ==> fin == ProbePhaseView::Finished {
                status: Status::Found,
            }
            &&& message != fingerprint() ==> fin == ProbePhaseView::Finished {
                status: Status::NotFound,
            }
        }),
{
    let (p, first) = probe_start(base, embed, password);
    let replies = seq![
        Ok::<AnswerView, ApiErrorView>(AnswerView::Root { message }),
        Ok::<AnswerView, ApiErrorView>(AnswerView::Defaults { default_embedding_model: default_model }),
        Ok::<AnswerView, ApiErrorView>(AnswerView::Models(models)),
        Ok::<AnswerView, ApiErrorView>(AnswerView::Credentials(creds)),
    ];
    reveal_with_fuel(probe_after, 5);
    assert(replies.drop_first() =~= seq![replies[1], replies[2], replies[3]]);
    assert(replies.drop_first().drop_first() =~= seq![replies[2], replies[3]]);
    assert(replies.drop_first().drop_first().drop_first() =~= seq![replies[3]]);
    assert(replies.drop_first().drop_first().drop_first().drop_first() =~= Seq::<ReplyView>::empty());
}

/// A password-protected Open Notebook that refuses the defaults for a missing
/// or wrong password reports `NeedsKey`, after reading nothing else.
pub proof fn status_needs_key_when_refused(
    base: Seq<char>,
    embed: Seq<char>,
    password: Option<Seq<char>>,
)
    ensures
        ({
            let (p, first) = probe_start(base, embed, password);
            let replies = seq![
                Ok::<AnswerView, ApiErrorView>(AnswerView::Root { message: fingerprint() }),
                Err::<AnswerView, ApiErrorView>(ApiErrorView::Unauthorized),
            ];
            probe_steps(p, replies) == seq![
                ProbeStepView::Send(probe_get(p, "/api/models/defaults"@, Expect::Defaults)),
                ProbeStepView::Done(Status::NeedsKey),
            ]
        }),
{
    let (p, first) = probe_start(base, embed, password);
    let replies = seq![
        Ok::<AnswerView, ApiErrorView>(AnswerView::Root { message: fingerprint() }),
        Err::<AnswerView, ApiErrorView>(ApiErrorView::Unauthorized),
    ];
    reveal_with_fuel(probe_steps, 3);
    assert(replies.drop_first() =~= seq![replies[1]]);
    assert(replies.drop_first().drop_first() =~= Seq::<ReplyView>::empty());
    assert(probe_steps(p, replies) =~= seq![
        ProbeStepView::Send(probe_get(p, "/api/models/defaults"@, Expect::Defaults)),
        ProbeStepView::Done(Status::NeedsKey),
    ]);
}

/// Nothing but the fingerprint is asked of a server that does not identify
/// as Open Notebook: the probe answers `NotFound` to the first reply.
pub proof fn status_not_found_without_fingerprint(
    base: Seq<char>,
    embed: Seq<char>,
    password: Option<Seq<char>>,
    reply: ReplyView,
)
    requires
        !crate::connectors::is_open_notebook(reply),
    ensures
        probe_next(probe_start(base, embed, password).0, reply).1 == ProbeStepView::Done(Status::NotFound),
{
}

/// Every request of a connect run after the first carries the password as
/// `Authorization: Bearer <password>` (none without a password) and waits
/// five seconds; so does the first.
pub proof fn connect_requests_carry_the_password(run: crate::connectors::ConnectRunView, reply: ReplyView)
    ensures
        connect_start(run.base, run.embed, run.password).1.authorization == crate::connectors::auth_header(
            run.password,
        ),
        connect_next(run, reply).1 matches ConnectStepView::Send(req) ==> req.authorization
            == crate::connectors::auth_header(run.password) && req.timeout_ms == 5000,
{
}

/// The fingerprint request carries no password; every later request of a
/// status probe carries it and waits one and a half seconds.
pub proof fn status_requests_carry_the_password(p: crate::connectors::StatusProbeView, reply: ReplyView)
    ensures
        probe_start(p.base, p.embed, p.password).1.authorization is None,
        probe_next(p, reply).1 matches ProbeStepView::Send(req) ==> req.authorization
            == crate::connectors::auth_header(p.password) && req.timeout_ms == 1500,
{
}

proof fn lemma_after_last_no_sep(s: Seq<char>, t: Seq<char>, c: char)
    requires
        forall|i: int| 0 <= i < t.len() ==> t[i] != c,
    ensures
        after_last(s + t, c) == after_last(s, c) + t,
    decreases t.len(),
{
    if t.len() == 0 {
        assert(s + t =~= s);
        assert(after_last(s, c) + t =~= after_last(s, c));
    } else {
        let t0 = t.drop_last();
        lemma_after_last_no_sep(s, t0, c);
        assert((s + t).drop_last() =~= s + t0);
        assert((s + t).last() == t.last());
        assert(after_last(s, c) + t0.push(t.last()) =~= after_last(s, c) + t);
        assert(t0.push(t.last()) =~= t);
        assert((after_last(s, c) + t0).push(t.last()) =~= after_last(s, c) + t);
    }
}

/// The port `port_of` reads back from a URL that `embedding_url` built is
/// the port it was built with (for a port without `:` that does not end in
/// `/v1`).
pub proof fn port_of_reads_back_the_port(port: Seq<char>, docker: bool)
    requires
        forall|i: int| 0 <= i < port.len() ==> port[i] != ':',
        !has_suffix(port, "/v1"@),
    ensures
        spec_port_of(spec_embedding_url(port, docker)) == port,
{
    reveal_strlit(":");
    reveal_strlit("/v1");
    let host = if docker { "host.docker.internal"@ } else { "127.0.0.1"@ };
    let prefix = "http://"@ + host + ":"@;
    let url = spec_embedding_url(port, docker);
    let tail = port + "/v1"@;
    assert(url =~= prefix + tail);
    assert forall|i: int| 0 <= i < tail.len() implies tail[i] != ':' by {
        if i >= port.len() {
            assert(tail[i] == "/v1"@[i - port.len()]);
        }
    }
    lemma_after_last_no_sep(prefix, tail, ':');
    assert(prefix.last() == ':');
    assert(after_last(prefix, ':') =~= Seq::<char>::empty());
    assert(after_last(url, ':') =~= tail);
    assert(has_suffix(tail, "/v1"@)) by {
        assert(tail.subrange(tail.len() - 3, tail.len() as int) =~= "/v1"@);
    }
    assert(tail.subrange(0, tail.len() - 3) =~= port);
    assert(trim_end_all(tail, "/v1"@) == trim_end_all(port, "/v1"@));
}

/// Each request a status probe sends is the one the phase it leads to reads:
/// the fingerprint `GET /` (as a root reply, without the password), then
/// `GET /api/models/defaults` read as the defaults, `GET
/// /api/models?type=embedding` read as a model list, and `GET
/// /api/credentials` read as a credential list.
pub proof fn status_requests_expect_what_the_next_step_reads(p: crate::connectors::StatusProbeView, reply: ReplyView)
    ensures
        ({
            let (p0, first) = probe_start(p.base, p.embed, p.password);
            &&& p0.phase == ProbePhaseView::Detect
            &&& first.method == Method::Get && first.url == p.base + "/"@ && first.expect == Expect::Root
        }),
        match probe_next(p, reply) {
            (phase, ProbeStepView::Send(req)) => req.method == Method::Get && req.body is None && match phase {
                ProbePhaseView::Defaults => req.url == p.base + "/api/models/defaults"@ && req.expect
                    == Expect::Defaults,
                ProbePhaseView::Models { .. } => req.url == p.base + "/api/models?type=embedding"@
                    && req.expect == Expect::Models,
                ProbePhaseView::Credentials { .. } => req.url == p.base + "/api/credentials"@ && req.expect
                    == Expect::Credentials,
                _ => false,
            },
            _ => true,
        },
{
}

/// Each request a connect run sends is the one the phase it leads to reads:
/// its method, its path and the kind of reply it is read as.
pub proof fn connect_requests_expect_what_the_next_phase_reads(
    run: crate::connectors::ConnectRunView,
    reply: ReplyView,
)
    ensures
        ({
            let (r0, first) = connect_start(run.base, run.embed, run.password);
            &&& r0.phase == ConnectPhaseView::CheckDefaults
            &&& first.method == Method::Get && first.url == run.base + "/api/models/defaults"@
                && first.expect == Expect::Defaults
        }),
        match connect_next(run, reply) {
            (phase, ConnectStepView::Send(req)) => match phase {
                ConnectPhaseView::CheckModels { .. } => req.method == Method::Get && req.url == run.base
                    + "/api/models?type=embedding"@ && req.expect == Expect::Models,
                ConnectPhaseView::CheckCredentials { .. } => req.method == Method::Get && req.url == run.base
                    + "/api/credentials"@ && req.expect == Expect::Credentials,
                ConnectPhaseView::ListCredentials => req.method == Method::Get && req.url == run.base
                    + "/api/credentials?provider=openai_compatible"@ && req.expect == Expect::Credentials,
                ConnectPhaseView::CreateCredential => req.method == Method::Post && req.url == run.base
                    + "/api/credentials"@ && req.expect == Expect::Credential,
                ConnectPhaseView::ListModels { .. } => req.method == Method::Get && req.url == run.base
                    + "/api/models?type=embedding"@ && req.expect == Expect::Models,
                ConnectPhaseView::CreateModel { .. } => req.method == Method::Post && req.url == run.base
                    + "/api/models"@ && req.expect == Expect::Model,
                ConnectPhaseView::Relist { .. } => req.method == Method::Get && req.url == run.base
                    + "/api/models?type=embedding"@ && req.expect == Expect::Models,
                ConnectPhaseView::ReadDefaults { .. } => req.method == Method::Get && req.url == run.base
                    + "/api/models/defaults"@ && req.expect == Expect::Defaults,
                ConnectPhaseView::WriteDefaults => req.method == Method::Put && req.url == run.base
                    + "/api/models/defaults"@,
                _ => false,
            },
            _ => true,
        },
{
}

/// The only model a connect run creates is an `openai_compatible`
/// embedding model, named `bge-m3` (or `bge-m3 (bge-embed-rs :<port>)`),
/// bound to the credential the run settled on.
pub proof fn connect_creates_only_embedding_models(run: crate::connectors::ConnectRunView, reply: ReplyView)
    ensures
        match connect_next(run, reply).1 {
            ConnectStepView::Send(req) => req.method == Method::Post && req.url == run.base + "/api/models"@
                ==> match (run.phase, req.body) {
                (
                    ConnectPhaseView::ListModels { credential: ours },
                    Some(BodyView::CreateModel { name, provider, kind, credential }),
                ) => {
                    &&& kind == "embedding"@
                    &&& provider == "openai_compatible"@
                    &&& credential == ours
                    &&& (name == "bge-m3"@ || name == "bge-m3 (bge-embed-rs :"@ + spec_port_of(run.embed)
                        + ")"@)
                },
                _ => false,
            },
            _ => true,
        },
{
    lemma_paths_have_lengths();
    let base = run.base;
    assert((base + "/api/credentials"@).len() != (base + "/api/models"@).len());
    assert((base + "/api/models/defaults"@).len() != (base + "/api/models"@).len());
}

/// The only credential a connect run creates is `bge-embed-rs`, an
/// `openai_compatible` credential for the embedding modality whose
/// `base_url` is this server's, with a placeholder key.
pub proof fn connect_creates_only_our_credential(run: crate::connectors::ConnectRunView, reply: ReplyView)
    ensures
        match connect_next(run, reply).1 {
            ConnectStepView::Send(req) => req.method == Method::Post && req.url == run.base + "/api/credentials"@
                ==> run.phase == ConnectPhaseView::ListCredentials && req.body == Some(
                BodyView::CreateCredential {
                    name: "bge-embed-rs"@,
                    provider: "openai_compatible"@,
                    base_url: run.embed,
                    modalities: seq!["embedding"@],
                    api_key: "sk-local"@,
                },
            ),
            _ => true,
        },
{
    lemma_paths_have_lengths();
    let base = run.base;
    assert((base + "/api/credentials"@).len() != (base + "/api/models"@).len());
}

/// A connect run writes the defaults only to make the model it settled on
/// the default embedding model, and only after reading that it was not.
pub proof fn connect_sets_the_default_to_the_model_it_settled_on(
    run: crate::connectors::ConnectRunView,
    reply: ReplyView,
)
    ensures
        match connect_next(run, reply).1 {
            ConnectStepView::Send(req) => req.method == Method::Put ==> match (run.phase, req.body) {
                (ConnectPhaseView::ReadDefaults { model }, Some(BodyView::Defaults { default_embedding_model })) => {
                    &&& default_embedding_model == model
                    &&& reply matches Ok(AnswerView::Defaults { default_embedding_model: current })
                    &&& current != Some(model)
                },
                _ => false,
            },
            _ => true,
        },
{
}

proof fn lemma_paths_have_lengths()
    ensures
        "/api/credentials"@.len() == 16,
        "/api/models"@.len() == 11,
        "/api/models/defaults"@.len() == 20,
{
    reveal_strlit("/api/credentials");
    reveal_strlit("/api/models");
    reveal_strlit("/api/models/defaults");
}

/// The embedding URL given to a tool names the loopback address, or
/// `host.docker.internal` for a tool in Docker, then the port and `/v1`.
pub proof fn embedding_url_names_host_and_port(port: Seq<char>, docker: bool)
    ensures
        !docker ==> has_prefix(spec_embedding_url(port, docker), "http://127.0.0.1:"@),
        docker ==> has_prefix(spec_embedding_url(port, docker), "http://host.docker.internal:"@),
        has_suffix(spec_embedding_url(port, docker), ":"@ + port + "/v1"@),
{
    reveal_strlit("http://");
    reveal_strlit("127.0.0.1");
    reveal_strlit("host.docker.internal");
    reveal_strlit(":");
    reveal_strlit("/v1");
    reveal_strlit("http://127.0.0.1:");
    reveal_strlit("http://host.docker.internal:");
    let u = spec_embedding_url(port, docker);
    let host = if docker { "host.docker.internal"@ } else { "127.0.0.1"@ };
    assert(u =~= ("http://"@ + host + ":"@) + (port + "/v1"@));
    assert(u.subrange(u.len() - (":"@ + port + "/v1"@).len(), u.len() as int) =~= ":"@ + port + "/v1"@);
    if docker {
        assert(u.subrange(0, 28) =~= "http://host.docker.internal:"@);
    } else {
        assert(u.subrange(0, 17) =~= "http://127.0.0.1:"@);
    }
}

} // verus!
