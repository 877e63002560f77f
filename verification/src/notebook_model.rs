//! A model of Open Notebook's side of the exchange: its data, how it
//! answers each request its API documents, and the runs of the status probe
//! and the connect run against it. The laws here say what connecting leaves
//! behind.

use vstd::prelude::*;
use crate::connectors::{
    AnswerView, ApiErrorView, BodyView, ConnectPhaseView, ConnectRunView, ConnectStepView,
    CredentialView, Expect, Method, ModelView, ProbeStepView, ReplyView, RequestView,
    StatusProbeView, Status, connect_get, connect_next, connect_start, cred_for_url, cred_with_id,
    first_cred_for_url, first_model_for_cred, fingerprint, model_for_cred, model_with_id,
    probe_next, probe_start, probe_with_phase, run_with_phase,
};
use crate::text::eq_ignore_ascii_case;

verus! {

/// A credential as Open Notebook stores it.
pub struct StoredCredential {
    pub id: Seq<char>,
    pub base_url: Seq<char>,
    pub provider: Seq<char>,
}

/// What Open Notebook holds: credentials, embedding models and the default
/// embedding model.
pub struct NotebookData {
    pub credentials: Seq<StoredCredential>,
    pub models: Seq<ModelView>,
    pub default_model: Option<Seq<char>>,
}

pub open spec fn listed(c: StoredCredential) -> CredentialView {
    CredentialView { id: c.id, base_url: Some(c.base_url) }
}

/// `GET /api/credentials`
pub open spec fn all_creds(cs: Seq<StoredCredential>) -> Seq<CredentialView>
    decreases cs.len(),
{
    if cs.len() == 0 {
        Seq::empty()
    } else {
        all_creds(cs.drop_last()).push(listed(cs.last()))
    }
}

/// `GET /api/credentials?provider=openai_compatible`
pub open spec fn openai_creds(cs: Seq<StoredCredential>) -> Seq<CredentialView>
    decreases cs.len(),
{
    if cs.len() == 0 {
        Seq::empty()
    } else if cs.last().provider == "openai_compatible"@ {
        openai_creds(cs.drop_last()).push(listed(cs.last()))
    } else {
        openai_creds(cs.drop_last())
    }
}

/// Another model already has this (provider, name), names compared up to
/// ASCII case: Open Notebook refuses to create it.
pub open spec fn duplicate(ms: Seq<ModelView>, name: Seq<char>, provider: Seq<char>) -> bool {
    exists|i: int| 0 <= i < ms.len() && eq_ignore_ascii_case((#[trigger] ms[i]).name, name) && ms[i].provider == provider
}

/// How Open Notebook answers `req`, and what it holds afterwards; `fresh` is
/// the id it gives to anything it creates. Every request is let in (a
/// refused password only ends a run early).
pub open spec fn serve(d: NotebookData, base: Seq<char>, req: RequestView, fresh: Seq<char>) -> (
    NotebookData,
    ReplyView,
) {
    let url = req.url;
    if req.method == Method::Get {
        if url == base + "/"@ {
            (d, Ok(AnswerView::Root { message: fingerprint() }))
        } else if url == base + "/api/credentials"@ {
            (d, Ok(AnswerView::Credentials(all_creds(d.credentials))))
        } else if url == base + "/api/credentials?provider=openai_compatible"@ {
            (d, Ok(AnswerView::Credentials(openai_creds(d.credentials))))
        } else if url == base + "/api/models?type=embedding"@ {
            (d, Ok(AnswerView::Models(d.models)))
        } else if url == base + "/api/models/defaults"@ {
            (d, Ok(AnswerView::Defaults { default_embedding_model: d.default_model }))
        } else {
            (d, Err(ApiErrorView::Http(404)))
        }
    } else if req.method == Method::Post && url == base + "/api/credentials"@ {
        match req.body {
            Some(BodyView::CreateCredential { base_url, provider, .. }) => {
                let c = StoredCredential { id: fresh, base_url, provider };
                (
                    NotebookData { credentials: d.credentials.push(c), ..d },
                    Ok(AnswerView::Credential(listed(c))),
                )
            },
            _ => (d, Err(ApiErrorView::Http(422))),
        }
    } else if req.method == Method::Post && url == base + "/api/models"@ {
        match req.body {
            Some(BodyView::CreateModel { name, provider, credential, .. }) => if duplicate(
                d.models,
                name,
                provider,
            ) {
                (d, Err(ApiErrorView::Http(400)))
            } else {
                let m = ModelView { id: fresh, name, provider, credential: Some(credential) };
                (NotebookData { models: d.models.push(m), ..d }, Ok(AnswerView::Model(m)))
            },
            _ => (d, Err(ApiErrorView::Http(422))),
        }
    } else if req.method == Method::Put && url == base + "/api/models/defaults"@ {
        match req.body {
            Some(BodyView::Defaults { default_embedding_model }) => (
                NotebookData { default_model: Some(default_embedding_model), ..d },
                Ok(AnswerView::Accepted),
            ),
            _ => (d, Err(ApiErrorView::Http(422))),
        }
    } else {
        (d, Err(ApiErrorView::Http(405)))
    }
}

/// A connect run against Open Notebook holding `d`, from the request `req`
/// on: what it holds afterwards and the outcome (`None` if the run needs more
/// than `fuel` requests). The `k`-th `POST` may create something with the id
/// `fresh[k]`.
pub open spec fn connect_on(
    run: ConnectRunView,
    req: RequestView,
    d: NotebookData,
    fresh: Seq<Seq<char>>,
    fuel: nat,
) -> (NotebookData, Option<Result<bool, ApiErrorView>>)
    decreases fuel,
{
    if fuel == 0 || fresh.len() == 0 {
        (d, None)
    } else {
        let (d1, reply) = serve(d, run.base, req, fresh[0]);
        let (phase, step) = connect_next(run, reply);
        let rest = if req.method == Method::Post {
            fresh.drop_first()
        } else {
            fresh
        };
        match step {
            ConnectStepView::Done(o) => (d1, Some(o)),
            ConnectStepView::Send(next) => connect_on(
                run_with_phase(run, phase),
                next,
                d1,
                rest,
                (fuel - 1) as nat,
            ),
        }
    }
}

/// A status probe against Open Notebook holding `d`, from the request `req`
/// on (`None` if it needs more than `fuel` requests).
pub open spec fn status_on(p: StatusProbeView, req: RequestView, d: NotebookData, fuel: nat) -> Option<
    Status,
>
    decreases fuel,
{
    if fuel == 0 {
        None
    } else {
        let (d1, reply) = serve(d, p.base, req, Seq::empty());
        let (phase, step) = probe_next(p, reply);
        match step {
            ProbeStepView::Done(s) => Some(s),
            ProbeStepView::Send(next) => status_on(probe_with_phase(p, phase), next, d1, (fuel - 1) as nat),
        }
    }
}

/// Credential ids are distinct, and so are model ids.
pub open spec fn ids_unique(d: NotebookData) -> bool {
    &&& forall|i: int, j: int|
        0 <= i < d.credentials.len() && 0 <= j < d.credentials.len() && i != j ==> (
        #[trigger] d.credentials[i]).id != (#[trigger] d.credentials[j]).id
    &&& forall|i: int, j: int|
        0 <= i < d.models.len() && 0 <= j < d.models.len() && i != j ==> (#[trigger] d.models[i]).id
            != (#[trigger] d.models[j]).id
}

/// `f` is used nowhere in `d`: no credential or model has it as its id, no
/// model is bound to it, and it is not the default.
pub open spec fn unused_id(d: NotebookData, f: Seq<char>) -> bool {
    &&& forall|i: int| 0 <= i < d.credentials.len() ==> (#[trigger] d.credentials[i]).id != f
    &&& forall|i: int| 0 <= i < d.models.len() ==> (#[trigger] d.models[i]).id != f
    &&& forall|i: int| 0 <= i < d.models.len() ==> (#[trigger] d.models[i]).credential != Some(f)
    &&& d.default_model != Some(f)
}

/// The ids Open Notebook hands out are new and distinct.
pub open spec fn fresh_ids(d: NotebookData, fresh: Seq<Seq<char>>) -> bool {
    &&& forall|k: int| 0 <= k < fresh.len() ==> unused_id(d, #[trigger] fresh[k])
    &&& forall|k: int, l: int| 0 <= k < fresh.len() && 0 <= l < fresh.len() && k != l ==> #[trigger] fresh[k]
        != #[trigger] fresh[l]
}

/// Open Notebook points at `embed`, as the status probe sees it: the default
/// embedding model (the first model with its id) is bound to a credential
/// whose first listing among all credentials has `embed` as its `base_url`.
pub open spec fn points_at(d: NotebookData, embed: Seq<char>) -> bool {
    let all = all_creds(d.credentials);
    &&& d.default_model matches Some(mid)
    &&& model_with_id(d.models, mid) matches Some(i)
    &&& d.models[i].credential matches Some(cid)
    &&& cred_with_id(all, cid) matches Some(k)
    &&& all[k].base_url == Some(embed)
}

/// The default embedding model is the one a connect run picks: the first
/// model bound to the first `openai_compatible` credential whose `base_url`
/// is `embed`.
pub open spec fn default_is_first_pick(d: NotebookData, embed: Seq<char>) -> bool {
    let cs = openai_creds(d.credentials);
    &&& cred_for_url(cs, embed) matches Some(c)
    &&& model_for_cred(d.models, cs[c].id) matches Some(m)
    &&& d.default_model == Some(d.models[m].id)
}

// ---------------------------------------------------------------------------
// Lemmas about the lists Open Notebook returns
// ---------------------------------------------------------------------------

proof fn lemma_paths_differ()
    ensures
        "/"@.len() == 1,
        "/api/credentials"@.len() == 16,
        "/api/credentials?provider=openai_compatible"@.len() == 43,
        "/api/models?type=embedding"@.len() == 26,
        "/api/models/defaults"@.len() == 20,
        "/api/models"@.len() == 11,
{
    reveal_strlit("/");
    reveal_strlit("/api/credentials");
    reveal_strlit("/api/credentials?provider=openai_compatible");
    reveal_strlit("/api/models?type=embedding");
    reveal_strlit("/api/models/defaults");
    reveal_strlit("/api/models");
}

proof fn lemma_all_creds(cs: Seq<StoredCredential>)
    ensures
        all_creds(cs).len() == cs.len(),
        forall|j: int| 0 <= j < cs.len() ==> #[trigger] all_creds(cs)[j] == listed(cs[j]),
    decreases cs.len(),
{
    if cs.len() > 0 {
        lemma_all_creds(cs.drop_last());
    }
}

proof fn lemma_openai_creds_origin(cs: Seq<StoredCredential>)
    ensures
        forall|c: int| 0 <= c < openai_creds(cs).len() ==> exists|j: int| 0 <= j < cs.len() && #[trigger] openai_creds(cs)[c] == listed(cs[j]),
    decreases cs.len(),
{
    if cs.len() > 0 {
        let rest = cs.drop_last();
        lemma_openai_creds_origin(rest);
        assert forall|c: int| 0 <= c < openai_creds(cs).len() implies exists|j: int| 0 <= j < cs.len() && #[trigger] openai_creds(cs)[c] == listed(cs[j]) by {
            if c < openai_creds(rest).len() {
                let j = choose|j: int| 0 <= j < rest.len() && #[trigger] openai_creds(rest)[c] == listed(rest[j]);
                assert(openai_creds(cs)[c] == listed(cs[j]));
            } else {
                assert(openai_creds(cs)[c] == listed(cs[cs.len() - 1]));
            }
        }
    }
}

proof fn lemma_openai_creds_push(cs: Seq<StoredCredential>, c: StoredCredential)
    requires
        c.provider == "openai_compatible"@,
    ensures
        openai_creds(cs.push(c)) == openai_creds(cs).push(listed(c)),
{
    assert(cs.push(c).drop_last() =~= cs);
}

proof fn lemma_first_cred_for_url(cs: Seq<CredentialView>, url: Seq<char>, c: int)
    requires
        first_cred_for_url(cs, url, c),
    ensures
        cred_for_url(cs, url) == Some(c),
{
    let k = choose|k: int| first_cred_for_url(cs, url, k);
    assert(first_cred_for_url(cs, url, k));
    if k < c {
        assert(cs[k].base_url != Some(url));
    } else if c < k {
        assert(cs[c].base_url != Some(url));
    }
}

proof fn lemma_first_model_for_cred(ms: Seq<ModelView>, cred: Seq<char>, m: int)
    requires
        first_model_for_cred(ms, cred, m),
    ensures
        model_for_cred(ms, cred) == Some(m),
{
    let k = choose|k: int| first_model_for_cred(ms, cred, k);
    assert(first_model_for_cred(ms, cred, k));
    if k < m {
        assert(ms[k].credential != Some(cred));
    } else if m < k {
        assert(ms[m].credential != Some(cred));
    }
}

proof fn lemma_cred_for_url_facts(cs: Seq<CredentialView>, url: Seq<char>)
    ensures
        cred_for_url(cs, url) matches Some(c) ==> first_cred_for_url(cs, url, c),
        cred_for_url(cs, url) is None ==> forall|j: int| 0 <= j < cs.len() ==> (#[trigger] cs[j]).base_url != Some(url),
{
    if cred_for_url(cs, url) is None {
        assert forall|j: int| 0 <= j < cs.len() implies (#[trigger] cs[j]).base_url != Some(url) by {
            if cs[j].base_url == Some(url) {
                // the least such index is a first one
                lemma_least_cred_for_url(cs, url, j);
            }
        }
    }
}

proof fn lemma_least_cred_for_url(cs: Seq<CredentialView>, url: Seq<char>, j: int)
    requires
        0 <= j < cs.len(),
        cs[j].base_url == Some(url),
    ensures
        exists|k: int| first_cred_for_url(cs, url, k),
    decreases j,
{
    if forall|i: int| 0 <= i < j ==> (#[trigger] cs[i]).base_url != Some(url) {
        assert(first_cred_for_url(cs, url, j));
    } else {
        let i = choose|i: int| 0 <= i < j && (#[trigger] cs[i]).base_url != Some(url) == false;
        lemma_least_cred_for_url(cs, url, i);
    }
}

proof fn lemma_model_for_cred_facts(ms: Seq<ModelView>, cred: Seq<char>)
    ensures
        model_for_cred(ms, cred) matches Some(m) ==> first_model_for_cred(ms, cred, m),
        model_for_cred(ms, cred) is None ==> forall|j: int| 0 <= j < ms.len() ==> (#[trigger] ms[j]).credential != Some(cred),
{
    if model_for_cred(ms, cred) is None {
        assert forall|j: int| 0 <= j < ms.len() implies (#[trigger] ms[j]).credential != Some(cred) by {
            if ms[j].credential == Some(cred) {
                lemma_least_model_for_cred(ms, cred, j);
            }
        }
    }
}

proof fn lemma_least_model_for_cred(ms: Seq<ModelView>, cred: Seq<char>, j: int)
    requires
        0 <= j < ms.len(),
        ms[j].credential == Some(cred),
    ensures
        exists|k: int| first_model_for_cred(ms, cred, k),
    decreases j,
{
    if forall|i: int| 0 <= i < j ==> (#[trigger] ms[i]).credential != Some(cred) {
        assert(first_model_for_cred(ms, cred, j));
    } else {
        let i = choose|i: int| 0 <= i < j && (#[trigger] ms[i]).credential != Some(cred) == false;
        lemma_least_model_for_cred(ms, cred, i);
    }
}


proof fn lemma_len_of(base: Seq<char>, url: Seq<char>, path: Seq<char>)
    requires
        url == base + path,
    ensures
        url.len() == base.len() + path.len(),
{
}

proof fn lemma_serve_root(d: NotebookData, base: Seq<char>, req: RequestView, f: Seq<char>)
    requires
        req.method == Method::Get,
        req.url == base + "/"@,
    ensures
        serve(d, base, req, f) == (d, Ok::<AnswerView, ApiErrorView>(AnswerView::Root { message: fingerprint() })),
{
}

proof fn lemma_serve_all_creds(d: NotebookData, base: Seq<char>, req: RequestView, f: Seq<char>)
    requires
        req.method == Method::Get,
        req.url == base + "/api/credentials"@,
    ensures
        serve(d, base, req, f) == (d, Ok::<AnswerView, ApiErrorView>(AnswerView::Credentials(all_creds(d.credentials)))),
{
    lemma_paths_differ();
    lemma_len_of(base, req.url, "/api/credentials"@);
    assert(req.url != base + "/"@);
}

proof fn lemma_serve_openai_creds(d: NotebookData, base: Seq<char>, req: RequestView, f: Seq<char>)
    requires
        req.method == Method::Get,
        req.url == base + "/api/credentials?provider=openai_compatible"@,
    ensures
        serve(d, base, req, f) == (d, Ok::<AnswerView, ApiErrorView>(AnswerView::Credentials(openai_creds(d.credentials)))),
{
    lemma_paths_differ();
    lemma_len_of(base, req.url, "/api/credentials?provider=openai_compatible"@);
    assert(req.url != base + "/"@);
    assert(req.url != base + "/api/credentials"@);
}

proof fn lemma_serve_models(d: NotebookData, base: Seq<char>, req: RequestView, f: Seq<char>)
    requires
        req.method == Method::Get,
        req.url == base + "/api/models?type=embedding"@,
    ensures
        serve(d, base, req, f) == (d, Ok::<AnswerView, ApiErrorView>(AnswerView::Models(d.models))),
{
    lemma_paths_differ();
    lemma_len_of(base, req.url, "/api/models?type=embedding"@);
    assert(req.url != base + "/"@);
    assert(req.url != base + "/api/credentials"@);
    assert(req.url != base + "/api/credentials?provider=openai_compatible"@);
}

proof fn lemma_serve_defaults(d: NotebookData, base: Seq<char>, req: RequestView, f: Seq<char>)
    requires
        req.method == Method::Get,
        req.url == base + "/api/models/defaults"@,
    ensures
        serve(d, base, req, f) == (d, Ok::<AnswerView, ApiErrorView>(
            AnswerView::Defaults { default_embedding_model: d.default_model },
        )),
{
    lemma_paths_differ();
    lemma_len_of(base, req.url, "/api/models/defaults"@);
    assert(req.url != base + "/"@);
    assert(req.url != base + "/api/credentials"@);
    assert(req.url != base + "/api/credentials?provider=openai_compatible"@);
    assert(req.url != base + "/api/models?type=embedding"@);
}

proof fn lemma_serve_create_model(d: NotebookData, base: Seq<char>, req: RequestView, f: Seq<char>)
    requires
        req.method == Method::Post,
        req.url == base + "/api/models"@,
    ensures
        serve(d, base, req, f) == match req.body {
            Some(BodyView::CreateModel { name, provider, credential, .. }) => if duplicate(
                d.models,
                name,
                provider,
            ) {
                (d, Err::<AnswerView, ApiErrorView>(ApiErrorView::Http(400)))
            } else {
                let m = ModelView { id: f, name, provider, credential: Some(credential) };
                (NotebookData { models: d.models.push(m), ..d }, Ok(AnswerView::Model(m)))
            },
            _ => (d, Err(ApiErrorView::Http(422))),
        },
{
    lemma_paths_differ();
    lemma_len_of(base, req.url, "/api/models"@);
    assert(req.url != base + "/api/credentials"@);
}



proof fn lemma_serve_create_credential(d: NotebookData, base: Seq<char>, req: RequestView, f: Seq<char>)
    requires
        req.method == Method::Post,
        req.url == base + "/api/credentials"@,
    ensures
        serve(d, base, req, f) == match req.body {
            Some(BodyView::CreateCredential { base_url, provider, .. }) => {
                let c = StoredCredential { id: f, base_url, provider };
                (
                    NotebookData { credentials: d.credentials.push(c), ..d },
                    Ok::<AnswerView, ApiErrorView>(AnswerView::Credential(listed(c))),
                )
            },
            _ => (d, Err(ApiErrorView::Http(422))),
        },
{
}

proof fn lemma_serve_set_default(d: NotebookData, base: Seq<char>, req: RequestView, f: Seq<char>)
    requires
        req.method == Method::Put,
        req.url == base + "/api/models/defaults"@,
    ensures
        serve(d, base, req, f) == match req.body {
            Some(BodyView::Defaults { default_embedding_model }) => (
                NotebookData { default_model: Some(default_embedding_model), ..d },
                Ok::<AnswerView, ApiErrorView>(AnswerView::Accepted),
            ),
            _ => (d, Err(ApiErrorView::Http(422))),
        },
{
}

proof fn lemma_cred_for_url_push(cs: Seq<CredentialView>, url: Seq<char>, x: CredentialView)
    requires
        cred_for_url(cs, url) is None,
        x.base_url == Some(url),
    ensures
        cred_for_url(cs.push(x), url) == Some(cs.len() as int),
{
    lemma_cred_for_url_facts(cs, url);
    let cs2 = cs.push(x);
    assert forall|j: int| 0 <= j < cs.len() implies (#[trigger] cs2[j]).base_url != Some(url) by {
        assert(cs2[j] == cs[j]);
    }
    assert(first_cred_for_url(cs2, url, cs.len() as int));
    lemma_first_cred_for_url(cs2, url, cs.len() as int);
}

proof fn lemma_model_for_cred_push(ms: Seq<ModelView>, cred: Seq<char>, x: ModelView)
    requires
        model_for_cred(ms, cred) is None,
        x.credential == Some(cred),
    ensures
        model_for_cred(ms.push(x), cred) == Some(ms.len() as int),
{
    lemma_model_for_cred_facts(ms, cred);
    let ms2 = ms.push(x);
    assert forall|j: int| 0 <= j < ms.len() implies (#[trigger] ms2[j]).credential != Some(cred) by {
        assert(ms2[j] == ms[j]);
    }
    assert(first_model_for_cred(ms2, cred, ms.len() as int));
    lemma_first_model_for_cred(ms2, cred, ms.len() as int);
}

/// The run has to create a model on credential `cid` (none is bound to it)
/// and the name it picks is taken: Open Notebook refuses it.
pub open spec fn name_clash(d: NotebookData, embed: Seq<char>, cid: Seq<char>) -> bool {
    &&& model_for_cred(d.models, cid) is None
    &&& duplicate(d.models, crate::connectors::spec_model_name(d.models, embed), "openai_compatible"@)
}

/// The credential a connect run works with: the first `openai_compatible`
/// one whose `base_url` is `embed`, or else the one it creates with the id
/// `created`.
pub open spec fn settled_credential(d: NotebookData, embed: Seq<char>, created: Seq<char>) -> Seq<char> {
    let cs = openai_creds(d.credentials);
    match cred_for_url(cs, embed) {
        Some(c) => cs[c].id,
        None => created,
    }
}

/// The id `cid` of the credential a run settled on is a stored credential's.
pub open spec fn settled_on(d: NotebookData, embed: Seq<char>, cid: Seq<char>) -> bool {
    let cs = openai_creds(d.credentials);
    &&& cred_for_url(cs, embed) matches Some(c)
    &&& cs[c].id == cid
    &&& exists|j: int| 0 <= j < d.credentials.len() && (#[trigger] d.credentials[j]).id == cid
}


// ---------------------------------------------------------------------------
// The status probe and the check a connect run starts with
// ---------------------------------------------------------------------------

/// The status probe against Open Notebook holding `d`: `Connected` exactly
/// when it points at `embed`, `Found` otherwise.
proof fn lemma_status_on(base: Seq<char>, embed: Seq<char>, password: Option<Seq<char>>, d: NotebookData)
    ensures
        ({
            let (p, req) = probe_start(base, embed, password);
            status_on(p, req, d, 4) == Some(if points_at(d, embed) { Status::Connected } else { Status::Found })
        }),
{
    let (p0, req0) = probe_start(base, embed, password);
    let e = Seq::<char>::empty();
    lemma_serve_root(d, base, req0, e);
    let (ph1, st1) = probe_next(p0, Ok(AnswerView::Root { message: fingerprint() }));
    let p1 = probe_with_phase(p0, ph1);
    let req1 = st1->Send_0;
    assert(status_on(p0, req0, d, 4) == status_on(p1, req1, d, 3));
    lemma_serve_defaults(d, base, req1, e);
    let r2 = Ok::<AnswerView, ApiErrorView>(AnswerView::Defaults { default_embedding_model: d.default_model });
    let (ph2, st2) = probe_next(p1, r2);
    if let Some(mid) = d.default_model {
        let p2 = probe_with_phase(p1, ph2);
        let req2 = st2->Send_0;
        assert(status_on(p1, req1, d, 3) == status_on(p2, req2, d, 2));
        lemma_serve_models(d, base, req2, e);
        let (ph3, st3) = probe_next(p2, Ok(AnswerView::Models(d.models)));
        if let Some(i) = model_with_id(d.models, mid) {
            if let Some(cid) = d.models[i].credential {
                let p3 = probe_with_phase(p2, ph3);
                let req3 = st3->Send_0;
                assert(status_on(p2, req2, d, 2) == status_on(p3, req3, d, 1));
                lemma_serve_all_creds(d, base, req3, e);
                assert(status_on(p3, req3, d, 1) == Some(
                    probe_next(p3, Ok(AnswerView::Credentials(all_creds(d.credentials)))).1->Done_0,
                ));
            }
        }
    }
}

/// The check a connect run starts with: against an Open Notebook that
/// points at `embed` the run ends with `Ok(false)` after reading only;
/// against any other it has read `k` (one to three) times, changed nothing,
/// and goes on to look for its credential.
proof fn lemma_check_phase(run0: ConnectRunView, req0: RequestView, d: NotebookData, fresh: Seq<Seq<char>>, fuel: nat) -> (k: nat)
    requires
        run0.phase == ConnectPhaseView::CheckDefaults,
        req0 == connect_get(run0, "/api/models/defaults"@, Expect::Defaults),
        fuel >= 3,
        fresh.len() >= 1,
    ensures
        points_at(d, run0.embed) ==> connect_on(run0, req0, d, fresh, fuel) == (d, Some(Ok::<bool, ApiErrorView>(false))),
        !points_at(d, run0.embed) ==> {
            &&& 1 <= k <= 3
            &&& connect_on(run0, req0, d, fresh, fuel) == connect_on(
                run_with_phase(run0, ConnectPhaseView::ListCredentials),
                connect_get(run0, "/api/credentials?provider=openai_compatible"@, Expect::Credentials),
                d,
                fresh,
                (fuel - k) as nat,
            )
        },
{
    let base = run0.base;
    let lc = run_with_phase(run0, ConnectPhaseView::ListCredentials);
    let lreq = connect_get(run0, "/api/credentials?provider=openai_compatible"@, Expect::Credentials);
    lemma_serve_defaults(d, base, req0, fresh[0]);
    let r1 = Ok::<AnswerView, ApiErrorView>(AnswerView::Defaults { default_embedding_model: d.default_model });
    let (ph1, st1) = connect_next(run0, r1);
    let run1 = run_with_phase(run0, ph1);
    let req1 = st1->Send_0;
    assert(st1 is Send);
    assert(connect_on(run0, req0, d, fresh, fuel) == connect_on(run1, req1, d, fresh, (fuel - 1) as nat));
    if let Some(mid) = d.default_model {
        lemma_serve_models(d, base, req1, fresh[0]);
        let r2 = Ok::<AnswerView, ApiErrorView>(AnswerView::Models(d.models));
        let (ph2, st2) = connect_next(run1, r2);
        let run2 = run_with_phase(run1, ph2);
        let req2 = st2->Send_0;
        assert(st2 is Send);
        assert(connect_on(run1, req1, d, fresh, (fuel - 1) as nat) == connect_on(run2, req2, d, fresh, (fuel - 2) as nat));
        if let Some(i) = model_with_id(d.models, mid) {
            if let Some(cid) = d.models[i].credential {
                lemma_serve_all_creds(d, base, req2, fresh[0]);
                let r3 = Ok::<AnswerView, ApiErrorView>(AnswerView::Credentials(all_creds(d.credentials)));
                let (ph3, st3) = connect_next(run2, r3);
                if points_at(d, run0.embed) {
                    assert(st3 == ConnectStepView::Done(Ok::<bool, ApiErrorView>(false)));
                } else {
                    assert(run_with_phase(run2, ph3) == lc);
                    assert(st3 == ConnectStepView::Send(lreq));
                    assert(connect_on(run2, req2, d, fresh, (fuel - 2) as nat) == connect_on(lc, lreq, d, fresh, (fuel - 3) as nat));
                }
                return 3;
            }
        }
        assert(run2 == lc);
        assert(req2 == lreq);
        2
    } else {
        assert(run1 == lc);
        assert(req1 == lreq);
        1
    }
}

/// Under unique ids, the model a connect run picks, once it is the default,
/// is what the status probe finds: Open Notebook points at `embed`.
proof fn lemma_first_pick_points_at(d: NotebookData, embed: Seq<char>)
    requires
        ids_unique(d),
        default_is_first_pick(d, embed),
    ensures
        points_at(d, embed),
{
    let cs = openai_creds(d.credentials);
    let c = cred_for_url(cs, embed)->0;
    let cid = cs[c].id;
    let m = model_for_cred(d.models, cid)->0;
    let mid = d.models[m].id;
    lemma_cred_for_url_facts(cs, embed);
    lemma_model_for_cred_facts(d.models, cid);
    assert(model_with_id(d.models, mid) == Some(m)) by {
        assert(crate::connectors::first_model_with_id(d.models, mid, m));
        let k = choose|k: int| crate::connectors::first_model_with_id(d.models, mid, k);
        assert(crate::connectors::first_model_with_id(d.models, mid, k));
        if k != m {
            assert(d.models[k].id != d.models[m].id);
        }
    }
    lemma_openai_creds_origin(d.credentials);
    lemma_all_creds(d.credentials);
    let all = all_creds(d.credentials);
    let j = choose|j: int| 0 <= j < d.credentials.len() && #[trigger] cs[c] == listed(d.credentials[j]);
    assert(cs[c] == listed(d.credentials[j]));
    assert(all[j] == listed(d.credentials[j]));
    assert(cred_with_id(all, cid) == Some(j)) by {
        assert(crate::connectors::first_cred_with_id(all, cid, j)) by {
            assert forall|i: int| 0 <= i < j implies (#[trigger] all[i]).id != cid by {
                assert(all[i] == listed(d.credentials[i]));
                assert(d.credentials[i].id != d.credentials[j].id);
            }
        }
        let k = choose|k: int| crate::connectors::first_cred_with_id(all, cid, k);
        assert(crate::connectors::first_cred_with_id(all, cid, k));
        if k < j {
            assert(all[k].id != cid);
        } else if j < k {
            assert(all[j].id != cid);
        }
    }
}

// ---------------------------------------------------------------------------
// Creating what is missing
// ---------------------------------------------------------------------------

/// From reading the defaults on: a run that settled on credential `cid`
/// and model `m` leaves that model the default whenever it ends well.
proof fn lemma_defaults_phase(
    run: ConnectRunView,
    req: RequestView,
    d: NotebookData,
    fresh: Seq<Seq<char>>,
    fuel: nat,
    cid: Seq<char>,
    m: int,
)
    requires
        run.phase == (ConnectPhaseView::ReadDefaults { model: d.models[m].id }),
        req == connect_get(run, "/api/models/defaults"@, Expect::Defaults),
        settled_on(d, run.embed, cid),
        model_for_cred(d.models, cid) == Some(m),
        ids_unique(d),
        fuel >= 2,
        fresh.len() >= 1,
    ensures
        ({
            let (d2, out) = connect_on(run, req, d, fresh, fuel);
            &&& out matches Some(Ok(_)) ==> default_is_first_pick(d2, run.embed) && ids_unique(d2)
            &&& out matches Some(Ok(changed)) ==> (changed <==> d2.default_model != d.default_model)
            &&& out matches Some(Ok(_))
        }),
{
    let base = run.base;
    let mid = d.models[m].id;
    lemma_serve_defaults(d, base, req, fresh[0]);
    let r1 = Ok::<AnswerView, ApiErrorView>(AnswerView::Defaults { default_embedding_model: d.default_model });
    let (ph1, st1) = connect_next(run, r1);
    if d.default_model == Some(mid) {
        assert(st1 == ConnectStepView::Done(Ok::<bool, ApiErrorView>(false)));
        assert(connect_on(run, req, d, fresh, fuel) == (d, Some(Ok::<bool, ApiErrorView>(false))));
    } else {
        let run1 = run_with_phase(run, ph1);
        let req1 = st1->Send_0;
        assert(connect_on(run, req, d, fresh, fuel) == connect_on(run1, req1, d, fresh, (fuel - 1) as nat));
        lemma_serve_set_default(d, base, req1, fresh[0]);
        let d1 = NotebookData { default_model: Some(mid), ..d };
        assert(serve(d, base, req1, fresh[0]) == (d1, Ok::<AnswerView, ApiErrorView>(AnswerView::Accepted)));
        assert(connect_next(run1, Ok::<AnswerView, ApiErrorView>(AnswerView::Accepted)).1
            == ConnectStepView::Done(Ok::<bool, ApiErrorView>(true)));
        assert(connect_on(run1, req1, d, fresh, (fuel - 1) as nat) == (d1, Some(Ok::<bool, ApiErrorView>(true))));
        assert(d1.credentials == d.credentials);
        assert(d1.models == d.models);
    }
}

/// From listing the models on, once the run settled on credential `cid`.
proof fn lemma_models_phase(
    run: ConnectRunView,
    req: RequestView,
    d: NotebookData,
    fresh: Seq<Seq<char>>,
    fuel: nat,
    cid: Seq<char>,
)
    requires
        run.phase == (ConnectPhaseView::ListModels { credential: cid }),
        req == connect_get(run, "/api/models?type=embedding"@, Expect::Models),
        settled_on(d, run.embed, cid),
        ids_unique(d),
        fresh_ids(d, fresh),
        fuel >= 5,
        fresh.len() >= 2,
    ensures
        ({
            let (d2, out) = connect_on(run, req, d, fresh, fuel);
            &&& out matches Some(Ok(_)) ==> default_is_first_pick(d2, run.embed) && ids_unique(d2)
            &&& out matches Some(Ok(changed)) ==> (changed <==> d2.default_model != d.default_model)
            &&& out == if name_clash(d, run.embed, cid) {
                Some(Err::<bool, ApiErrorView>(ApiErrorView::Http(400)))
            } else {
                Some(Ok::<bool, ApiErrorView>(out->0->Ok_0))
            }
        }),
{
    let base = run.base;
    let ms = d.models;
    lemma_serve_models(d, base, req, fresh[0]);
    lemma_model_for_cred_facts(ms, cid);
    let r1 = Ok::<AnswerView, ApiErrorView>(AnswerView::Models(ms));
    let (ph1, st1) = connect_next(run, r1);
    let run1 = run_with_phase(run, ph1);
    let req1 = st1->Send_0;
    assert(st1 is Send);
    assert(connect_on(run, req, d, fresh, fuel) == connect_on(run1, req1, d, fresh, (fuel - 1) as nat));
    if model_for_cred(ms, cid) is Some {
        let m = model_for_cred(ms, cid)->0;
        lemma_defaults_phase(run1, req1, d, fresh, (fuel - 1) as nat, cid, m);
    } else {
        let name = crate::connectors::spec_model_name(ms, run.embed);
        let provider = "openai_compatible"@;
        assert(req1.body == Some(crate::connectors::model_body(name, cid)));
        lemma_serve_create_model(d, base, req1, fresh[0]);
        let f2 = fresh.drop_first();
        if duplicate(ms, name, provider) {
            assert(serve(d, base, req1, fresh[0]) == (d, Err::<AnswerView, ApiErrorView>(ApiErrorView::Http(400))));
            let (ph2, st2) = connect_next(run1, Err(ApiErrorView::Http(400)));
            let run2 = run_with_phase(run1, ph2);
            let req2 = st2->Send_0;
            assert(connect_on(run1, req1, d, fresh, (fuel - 1) as nat) == connect_on(run2, req2, d, f2, (fuel - 2) as nat));
            lemma_serve_models(d, base, req2, f2[0]);
            assert(connect_next(run2, r1).1 == ConnectStepView::Done(Err::<bool, ApiErrorView>(ApiErrorView::Http(400))));
            assert(connect_on(run2, req2, d, f2, (fuel - 2) as nat).1 == Some(Err::<bool, ApiErrorView>(ApiErrorView::Http(400))));
        } else {
            let fid = fresh[0];
            let nm = ModelView { id: fid, name, provider, credential: Some(cid) };
            let d1 = NotebookData { models: ms.push(nm), ..d };
            assert(serve(d, base, req1, fid) == (d1, Ok::<AnswerView, ApiErrorView>(AnswerView::Model(nm))));
            let (ph2, st2) = connect_next(run1, Ok(AnswerView::Model(nm)));
            let run2 = run_with_phase(run1, ph2);
            let req2 = st2->Send_0;
            assert(connect_on(run1, req1, d, fresh, (fuel - 1) as nat) == connect_on(run2, req2, d1, f2, (fuel - 2) as nat));
            lemma_model_for_cred_push(ms, cid, nm);
            assert(unused_id(d, fresh[0]));
            assert(ids_unique(d1)) by {
                assert forall|i: int, j: int|
                    0 <= i < d1.models.len() && 0 <= j < d1.models.len() && i != j implies (#[trigger] d1.models[i]).id
                        != (#[trigger] d1.models[j]).id by {
                    if i < ms.len() && j < ms.len() {
                        assert(d1.models[i] == ms[i] && d1.models[j] == ms[j]);
                    } else if i < ms.len() {
                        assert(d1.models[i] == ms[i]);
                        assert(ms[i].id != fid);
                    } else {
                        assert(d1.models[j] == ms[j]);
                        assert(ms[j].id != fid);
                    }
                }
            }
            assert(d1.models[ms.len() as int].id == fid);
            lemma_defaults_phase(run2, req2, d1, f2, (fuel - 2) as nat, cid, ms.len() as int);
        }
    }
}

/// From looking for its credential on: the run ends within seven requests;
/// it fails only on a name clash, and otherwise leaves the model it picked
/// the default.
proof fn lemma_list_credentials_phase(
    run0: ConnectRunView,
    req0: RequestView,
    d: NotebookData,
    fresh: Seq<Seq<char>>,
    fuel: nat,
)
    requires
        run0.phase == ConnectPhaseView::ListCredentials,
        req0 == connect_get(run0, "/api/credentials?provider=openai_compatible"@, Expect::Credentials),
        ids_unique(d),
        fresh_ids(d, fresh),
        fuel >= 7,
        fresh.len() >= 3,
    ensures
        ({
            let embed = run0.embed;
            let (d2, out) = connect_on(run0, req0, d, fresh, fuel);
            &&& out matches Some(Ok(_)) ==> default_is_first_pick(d2, embed) && ids_unique(d2)
            &&& out matches Some(Ok(changed)) ==> (changed <==> d2.default_model != d.default_model)
            &&& out == if name_clash(d, embed, settled_credential(d, embed, fresh[0])) {
                Some(Err::<bool, ApiErrorView>(ApiErrorView::Http(400)))
            } else {
                Some(Ok::<bool, ApiErrorView>(out->0->Ok_0))
            }
        }),
{
    let base = run0.base;
    let embed = run0.embed;
    let cs = openai_creds(d.credentials);
    lemma_serve_openai_creds(d, base, req0, fresh[0]);
    lemma_cred_for_url_facts(cs, embed);
    lemma_openai_creds_origin(d.credentials);
    let r0 = Ok::<AnswerView, ApiErrorView>(AnswerView::Credentials(cs));
    let (ph1, st1) = connect_next(run0, r0);
    let run1 = run_with_phase(run0, ph1);
    let req1 = st1->Send_0;
    assert(st1 is Send);
    assert(connect_on(run0, req0, d, fresh, fuel) == connect_on(run1, req1, d, fresh, (fuel - 1) as nat));
    if cred_for_url(cs, embed) is Some {
        let c = cred_for_url(cs, embed)->0;
        let cid = cs[c].id;
        let j = choose|j: int| 0 <= j < d.credentials.len() && #[trigger] cs[c] == listed(d.credentials[j]);
        assert(d.credentials[j].id == cid);
        assert(settled_on(d, embed, cid));
        lemma_models_phase(run1, req1, d, fresh, (fuel - 1) as nat, cid);
    } else {
        let fid = fresh[0];
        assert(unused_id(d, fid));
        let sc = StoredCredential { id: fid, base_url: embed, provider: "openai_compatible"@ };
        let d1 = NotebookData { credentials: d.credentials.push(sc), ..d };
        lemma_serve_create_credential(d, base, req1, fid);
        assert(serve(d, base, req1, fid) == (d1, Ok::<AnswerView, ApiErrorView>(AnswerView::Credential(listed(sc)))));
        let (ph2, st2) = connect_next(run1, Ok(AnswerView::Credential(listed(sc))));
        let run2 = run_with_phase(run1, ph2);
        let req2 = st2->Send_0;
        let f2 = fresh.drop_first();
        assert(connect_on(run1, req1, d, fresh, (fuel - 1) as nat) == connect_on(run2, req2, d1, f2, (fuel - 2) as nat));
        lemma_openai_creds_push(d.credentials, sc);
        lemma_cred_for_url_push(cs, embed, listed(sc));
        let cs1 = openai_creds(d1.credentials);
        assert(cs1 == cs.push(listed(sc)));
        assert(cs1[cs.len() as int].id == fid);
        assert(d1.credentials[d.credentials.len() as int].id == fid);
        assert(settled_on(d1, embed, fid));
        assert(ids_unique(d1)) by {
            assert forall|i: int, k: int|
                0 <= i < d1.credentials.len() && 0 <= k < d1.credentials.len() && i != k implies (
                #[trigger] d1.credentials[i]).id != (#[trigger] d1.credentials[k]).id by {
                if i < d.credentials.len() && k < d.credentials.len() {
                    assert(d1.credentials[i] == d.credentials[i] && d1.credentials[k] == d.credentials[k]);
                } else if i < d.credentials.len() {
                    assert(d1.credentials[i] == d.credentials[i]);
                } else {
                    assert(d1.credentials[k] == d.credentials[k]);
                }
            }
        }
        assert(fresh_ids(d1, f2)) by {
            assert forall|k: int| 0 <= k < f2.len() implies unused_id(d1, #[trigger] f2[k]) by {
                assert(f2[k] == fresh[k + 1]);
                assert(unused_id(d, fresh[k + 1]));
                assert(fresh[k + 1] != fresh[0]);
                assert forall|i: int| 0 <= i < d1.credentials.len() implies (#[trigger] d1.credentials[i]).id
                    != f2[k] by {
                    if i < d.credentials.len() {
                        assert(d1.credentials[i] == d.credentials[i]);
                    }
                }
            }
            assert forall|k: int, l: int| 0 <= k < f2.len() && 0 <= l < f2.len() && k != l implies #[trigger] f2[k]
                != #[trigger] f2[l] by {
                assert(f2[k] == fresh[k + 1] && f2[l] == fresh[l + 1]);
            }
        }
        lemma_models_phase(run2, req2, d1, f2, (fuel - 2) as nat, fid);
    }
}

// ---------------------------------------------------------------------------
// What connecting leaves behind
// ---------------------------------------------------------------------------

/// The status probe reports `Connected` exactly when Open Notebook points
/// at `embed` (and `Found` otherwise), whatever password it carries.
pub proof fn status_is_connected_iff_notebook_points_here(
    base: Seq<char>,
    embed: Seq<char>,
    password: Option<Seq<char>>,
    d: NotebookData,
)
    ensures
        ({
            let (p, req) = probe_start(base, embed, password);
            status_on(p, req, d, 4) == Some(if points_at(d, embed) { Status::Connected } else { Status::Found })
        }),
{
    lemma_status_on(base, embed, password, d);
}

/// Connecting to an Open Notebook that already points at `embed` changes
/// nothing, sends no `POST` or `PUT`, and reports that nothing changed.
pub proof fn connecting_again_changes_nothing(
    base: Seq<char>,
    embed: Seq<char>,
    password: Option<Seq<char>>,
    d: NotebookData,
    fresh: Seq<Seq<char>>,
)
    requires
        points_at(d, embed),
        fresh.len() >= 1,
    ensures
        ({
            let (run, req) = connect_start(base, embed, password);
            connect_on(run, req, d, fresh, 10) == (d, Some(Ok::<bool, ApiErrorView>(false)))
        }),
{
    let (run, req) = connect_start(base, embed, password);
    lemma_check_phase(run, req, d, fresh, 10);
}

/// Whenever the status probe reports `Connected`, a connect run on the same
/// Open Notebook changes nothing and reports `Ok(false)`: connecting does
/// nothing if the tool already points at this server.
pub proof fn connect_is_idle_whenever_status_is_connected(
    base: Seq<char>,
    embed: Seq<char>,
    password: Option<Seq<char>>,
    probe_password: Option<Seq<char>>,
    d: NotebookData,
    fresh: Seq<Seq<char>>,
)
    requires
        fresh.len() >= 1,
    ensures
        ({
            let (p, preq) = probe_start(base, embed, probe_password);
            let (run, req) = connect_start(base, embed, password);
            status_on(p, preq, d, 4) == Some(Status::Connected) ==> connect_on(run, req, d, fresh, 10) == (
                d,
                Some(Ok::<bool, ApiErrorView>(false)),
            )
        }),
{
    lemma_status_on(base, embed, probe_password, d);
    let (run, req) = connect_start(base, embed, password);
    lemma_check_phase(run, req, d, fresh, 10);
}

/// Against an Open Notebook that lets it in and hands out new ids, a
/// connect run always ends within ten requests. It ends with `Ok(false)`,
/// changing nothing, when Open Notebook already points at `embed`; otherwise
/// it fails only when it has to create a model and the name it picks is
/// taken (with the duplicate's `400`). Whenever it ends well Open Notebook
/// points at `embed`, its ids are still unique, and the run reports whether
/// the default changed.
pub proof fn connect_outcome_against_notebook(
    base: Seq<char>,
    embed: Seq<char>,
    password: Option<Seq<char>>,
    d: NotebookData,
    fresh: Seq<Seq<char>>,
)
    requires
        ids_unique(d),
        fresh_ids(d, fresh),
        fresh.len() >= 3,
    ensures
        ({
            let (run, req) = connect_start(base, embed, password);
            let (d2, out) = connect_on(run, req, d, fresh, 10);
            &&& out matches Some(Ok(_)) ==> points_at(d2, embed) && ids_unique(d2)
            &&& out matches Some(Ok(changed)) ==> (changed <==> d2.default_model != d.default_model)
            &&& points_at(d, embed) ==> d2 == d
            &&& out == if points_at(d, embed) {
                Some(Ok::<bool, ApiErrorView>(false))
            } else if name_clash(d, embed, settled_credential(d, embed, fresh[0])) {
                Some(Err::<bool, ApiErrorView>(ApiErrorView::Http(400)))
            } else {
                Some(Ok::<bool, ApiErrorView>(out->0->Ok_0))
            }
        }),
{
    let (run, req) = connect_start(base, embed, password);
    let k = lemma_check_phase(run, req, d, fresh, 10);
    if !points_at(d, embed) {
        let lc = run_with_phase(run, ConnectPhaseView::ListCredentials);
        let lreq = connect_get(run, "/api/credentials?provider=openai_compatible"@, Expect::Credentials);
        lemma_list_credentials_phase(lc, lreq, d, fresh, (10 - k) as nat);
        let (d2, out) = connect_on(run, req, d, fresh, 10);
        if out matches Some(Ok(_)) {
            lemma_first_pick_points_at(d2, embed);
        }
    }
}

/// Connecting makes a difference that stays: once a connect run against
/// Open Notebook ends well, the status probe reports `Connected` (with any
/// password), and a second connect run changes nothing and reports that
/// nothing changed.
pub proof fn connect_then_status_connected_and_second_connect_idle(
    base: Seq<char>,
    embed: Seq<char>,
    password: Option<Seq<char>>,
    probe_password: Option<Seq<char>>,
    d: NotebookData,
    fresh: Seq<Seq<char>>,
    fresh_again: Seq<Seq<char>>,
)
    requires
        ids_unique(d),
        fresh_ids(d, fresh),
        fresh.len() >= 3,
        fresh_again.len() >= 1,
    ensures
        ({
            let (run, req) = connect_start(base, embed, password);
            let (d2, out) = connect_on(run, req, d, fresh, 10);
            let (p, preq) = probe_start(base, embed, probe_password);
            out matches Some(Ok(_)) ==> {
                &&& status_on(p, preq, d2, 4) == Some(Status::Connected)
                &&& connect_on(run, req, d2, fresh_again, 10) == (d2, Some(Ok::<bool, ApiErrorView>(false)))
            }
        }),
{
    let (run, req) = connect_start(base, embed, password);
    let (d2, out) = connect_on(run, req, d, fresh, 10);
    connect_outcome_against_notebook(base, embed, password, d, fresh);
    if out matches Some(Ok(_)) {
        lemma_status_on(base, embed, probe_password, d2);
        connecting_again_changes_nothing(base, embed, password, d2, fresh_again);
    }
}

/// A connect run reports `Ok(true)` exactly when it changed Open
/// Notebook's default embedding model.
pub proof fn connect_reports_whether_the_default_changed(
    base: Seq<char>,
    embed: Seq<char>,
    password: Option<Seq<char>>,
    d: NotebookData,
    fresh: Seq<Seq<char>>,
)
    requires
        ids_unique(d),
        fresh_ids(d, fresh),
        fresh.len() >= 3,
    ensures
        ({
            let (run, req) = connect_start(base, embed, password);
            let (d2, out) = connect_on(run, req, d, fresh, 10);
            out matches Some(Ok(changed)) ==> (changed <==> d2.default_model != d.default_model)
        }),
{
    connect_outcome_against_notebook(base, embed, password, d, fresh);
}

} // verus!
