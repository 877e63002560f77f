//! The screen rules of the window: the status pill per phase, the
//! Connections rows, the stats line, and the navigation between the three
//! screens (with detection started once per visit of Connections).

use vstd::prelude::*;
use crate::connectors::Status;
use crate::text::{
    all_digits, decimal, decimal_string, digits_value, has_prefix, has_suffix, lemma_decimal_parses_back,
    trim_start_all, trim_start_matches,
};
use crate::theme::{Palette, Rgb};

verus! {

/// What the embedding server is doing.
#[derive(Debug, Clone, PartialEq, Eq)]
pub enum Phase {
    Downloading { file: String, done_bytes: u64, total_bytes: Option<u64> },
    Loading,
    Ready { url: String },
    Failed(String),
}

pub open spec fn spec_phase_pill(phase: Option<Phase>, p: Palette) -> (Rgb, Seq<char>) {
    match phase {
        None => (p.warning, "Downloading"@),
        Some(Phase::Downloading { .. }) => (p.warning, "Downloading"@),
        Some(Phase::Loading) => (p.warning, "Loading"@),
        Some(Phase::Ready { .. }) => (p.success, "Ready"@),
        Some(Phase::Failed(_)) => (p.error, "Failed"@),
    }
}

/// The header's status pill: dot colour and label by phase (no phase yet
/// counts as downloading).
pub fn phase_pill(phase: Option<&Phase>, p: &Palette) -> (r: (Rgb, &'static str))
    ensures
        (r.0, r.1@) == spec_phase_pill(
            match phase {
                Some(ph) => Some(*ph),
                None => None::<Phase>,
            },
            *p,
        ),
{
    match phase {
        None => (p.warning, "Downloading"),
        Some(Phase::Downloading { .. }) => (p.warning, "Downloading"),
        Some(Phase::Loading) => (p.warning, "Loading"),
        Some(Phase::Ready { .. }) => (p.success, "Ready"),
        Some(Phase::Failed(_)) => (p.error, "Failed"),
    }
}

/// `"http://host:port"` -> `"host:port"`, for a row's meta line.
pub open spec fn spec_host_only(url: Seq<char>) -> Seq<char> {
    trim_start_all(trim_start_all(url, "http://"@), "https://"@)
}

/// `"http://host:port"` -> `"host:port"`, for a row's meta line.
pub fn host_only(url: &str) -> (r: &str)
    ensures
        r@ == spec_host_only(url@),
{
    trim_start_matches(trim_start_matches(url, "http://"), "https://")
}

/// A "Detected on this computer" row: dot colour, meta line, and whether
/// the row offers `Connect` (otherwise `Re-check`).
#[derive(Debug, Clone, PartialEq, Eq)]
pub struct RowView {
    pub dot: Rgb,
    pub meta: String,
    pub show_connect: bool,
}

/// What a tool's row shows for its last check; `None` hides the row (the
/// tool is not on this computer). `needs_key_meta` is the tool's wording for
/// a missing key.
pub fn tool_row_view(status: Option<Status>, host: &str, needs_key_meta: &str, p: &Palette) -> (r:
    Option<RowView>)
    ensures
        match status {
            None => r matches Some(v) && v.dot == p.text_muted && v.meta@ == "Checking\u{2026}"@
                && !v.show_connect,
            Some(Status::Connected) => r matches Some(v) && v.dot == p.success && v.meta@
                == "Connected \u{b7} "@ + host@ && !v.show_connect,
            Some(Status::NeedsKey) => r matches Some(v) && v.dot == p.warning && v.meta@
                == needs_key_meta@ + " \u{b7} "@ + host@ && v.show_connect,
            Some(Status::Found) => r matches Some(v) && v.dot == p.text_muted && v.meta@ == "Found \u{b7} "@
                + host@ && v.show_connect,
            Some(Status::NotFound) => r is None,
        },
{
    match status {
        None => Some(
            RowView { dot: p.text_muted, meta: String::from_str("Checking\u{2026}"), show_connect: false },
        ),
        Some(Status::Connected) => Some(
            RowView {
                dot: p.success,
                meta: String::from_str("Connected \u{b7} ").concat(host),
                show_connect: false,
            },
        ),
        Some(Status::NeedsKey) => Some(
            RowView {
                dot: p.warning,
                meta: String::from_str(needs_key_meta).concat(" \u{b7} ").concat(host),
                show_connect: true,
            },
        ),
        Some(Status::Found) => Some(
            RowView {
                dot: p.text_muted,
                meta: String::from_str("Found \u{b7} ").concat(host),
                show_connect: true,
            },
        ),
        Some(Status::NotFound) => None,
    }
}

pub open spec fn spec_latency_text(requests_served: u64, last_latency_ms: u64) -> Seq<char> {
    if requests_served == 0 {
        "\u{2014} ms"@
    } else {
        decimal(last_latency_ms as nat) + " ms"@
    }
}

/// The "Last latency" stat: `— ms` until the first request is served.
pub fn latency_text(requests_served: u64, last_latency_ms: u64) -> (r: String)
    ensures
        r@ == spec_latency_text(requests_served, last_latency_ms),
{
    if requests_served == 0 {
        String::from_str("\u{2014} ms")
    } else {
        decimal_string(last_latency_ms).concat(" ms")
    }
}

pub open spec fn spec_endpoint_url(host: Seq<char>, port: Seq<char>) -> Seq<char> {
    "http://"@ + host + ":"@ + port + "/v1/embeddings"@
}

/// The Endpoint card: the URL shown, the hint under it, and whether `Copy`
/// is enabled. Before the model is ready the configured address is shown and
/// cannot be copied yet.
pub fn endpoint_view(ready_url: Option<&str>, host: &str, port: &str) -> (r: (String, &'static str, bool))
    ensures
        match ready_url {
            Some(u) => r.0@ == u@ && r.1@ == "OpenAI-compatible \u{b7} model name: bge-m3"@ && r.2,
            None => r.0@ == spec_endpoint_url(host@, port@)
                && r.1@ == "Available once the model is loaded. OpenAI-compatible, model name: bge-m3"@
                && !r.2,
        },
{
    match ready_url {
        Some(u) => (String::from_str(u), "OpenAI-compatible \u{b7} model name: bge-m3", true),
        None => (
            String::from_str("http://").concat(host).concat(":").concat(port).concat("/v1/embeddings"),
            "Available once the model is loaded. OpenAI-compatible, model name: bge-m3",
            false,
        ),
    }
}

/// The three screens of the window.
#[derive(Debug, Clone, Copy, PartialEq, Eq, Structural)]
pub enum Screen {
    Status,
    Connections,
    Settings,
}

/// A frame shows `screen` after one that showed `prev`: detection starts.
pub open spec fn starts_detection(screen: Screen, prev: Screen) -> bool {
    screen == Screen::Connections && prev != Screen::Connections
}

/// Open Notebook's row on the Connections screen: what the last check
/// found and what the last connect did.
#[derive(Debug, Clone, PartialEq, Eq)]
pub struct ToolState {
    /// `None` until the first check completes ("Checking…" meanwhile).
    pub tool_status: Option<Status>,
    /// A check or a connect is under way.
    pub checking: bool,
    /// The password typed into the row (empty: none).
    pub password: String,
    /// The base URL that last answered the fingerprint; `None` once a check
    /// found nothing.
    pub base_url: Option<String>,
    /// The last connect in this session changed the default embedding
    /// model (not just confirmed it): gates the re-embedding caption.
    pub changed: bool,
    /// Why the last connect failed.
    pub last_error: Option<String>,
}

impl ToolState {
    /// Nothing checked, nothing typed, nothing connected.
    pub fn new() -> (r: Self)
        ensures
            r.tool_status is None,
            !r.checking,
            r.password@ == Seq::<char>::empty(),
            r.base_url is None,
            !r.changed,
            r.last_error is None,
    {
        ToolState {
            tool_status: None,
            checking: false,
            password: String::new(),
            base_url: None,
            changed: false,
            last_error: None,
        }
    }

    /// Claims the row for a check or a connect: `false`, changing nothing,
    /// when one is already under way.
    pub fn try_begin(&mut self) -> (started: bool)
        ensures
            started == !old(self).checking,
            *final(self) == (ToolState { checking: true, ..*old(self) }),
    {
        if self.checking {
            false
        } else {
            self.checking = true;
            true
        }
    }

    /// A check ended: `base_url` answered the fingerprint (`None`: nothing
    /// did) and the probe reported `status`. Clears the last error and
    /// releases the row.
    pub fn finish_check(&mut self, base_url: Option<String>, status: Status)
        ensures
            *final(self) == (ToolState {
                tool_status: Some(status),
                checking: false,
                base_url,
                last_error: None,
                ..*old(self)
            }),
    {
        self.tool_status = Some(status);
        self.checking = false;
        self.base_url = base_url;
        self.last_error = None;
    }

    /// Where a connect goes: the base URL that answered the last check. Without
    /// one the row is released and nothing is connected; with one the last
    /// error is cleared.
    pub fn connect_target(&mut self) -> (r: Option<String>)
        ensures
            r == old(self).base_url,
            old(self).base_url is None ==> *final(self) == (ToolState { checking: false, ..*old(self) }),
            old(self).base_url is Some ==> *final(self) == (ToolState { last_error: None, ..*old(self) }),
    {
        match &self.base_url {
            None => {
                self.checking = false;
                None
            },
            Some(u) => {
                let u = u.clone();
                self.last_error = None;
                Some(u)
            },
        }
    }

    /// A connect ended with `outcome` (whether the default changed, or why
    /// it failed), and the status check after it reported `status`. Releases
    /// the row.
    pub fn finish_connect(&mut self, outcome: Result<bool, String>, status: Status)
        ensures
            outcome matches Ok(c) ==> *final(self) == (ToolState {
                tool_status: Some(status),
                checking: false,
                changed: c,
                ..*old(self)
            }),
            outcome matches Err(m) ==> *final(self) == (ToolState {
                tool_status: Some(status),
                checking: false,
                last_error: Some(m),
                ..*old(self)
            }),
    {
        match outcome {
            Ok(c) => self.changed = c,
            Err(m) => self.last_error = Some(m),
        }
        self.tool_status = Some(status);
        self.checking = false;
    }

    /// The password to send: `None` when none was typed.
    pub fn password_to_send(&self) -> (r: Option<String>)
        ensures
            match r {
                None => self.password@.len() == 0,
                Some(p) => p@ == self.password@ && self.password@.len() > 0,
            },
    {
        let typed = self.password.as_str();
        if typed.unicode_len() == 0 {
            None
        } else {
            Some(self.password.clone())
        }
    }

    /// The re-embedding caption shows when the row is connected and a
    /// connect in this session changed the default.
    pub fn shows_changed_caption(&self) -> (r: bool)
        ensures
            r == (self.tool_status == Some(Status::Connected) && self.changed),
    {
        match self.tool_status {
            Some(Status::Connected) => self.changed,
            _ => false,
        }
    }
}

/// The Connections screen's state: Open Notebook's row and the
/// "Runs in Docker" toggle.
#[derive(Debug, Clone, PartialEq, Eq)]
pub struct ConnState {
    pub open_notebook: ToolState,
    pub docker: bool,
}

impl ConnState {
    /// An unchecked row, not in Docker.
    pub fn new() -> (r: Self)
        ensures
            r.open_notebook.tool_status is None,
            !r.open_notebook.checking,
            r.open_notebook.password@ == Seq::<char>::empty(),
            r.open_notebook.base_url is None,
            !r.open_notebook.changed,
            r.open_notebook.last_error is None,
            !r.docker,
    {
        ConnState { open_notebook: ToolState::new(), docker: false }
    }
}

/// The window's state: the server status it shows, the screen on display
/// and the one displayed in the previous frame, and the Connections screen's
/// state.
pub struct GuiApp<S> {
    status: S,
    screen: Screen,
    prev_screen: Screen,
    conn: ConnState,
}

impl<S> GuiApp<S> {
    pub closed spec fn spec_status(&self) -> S {
        self.status
    }

    pub closed spec fn spec_screen(&self) -> Screen {
        self.screen
    }

    pub closed spec fn spec_prev_screen(&self) -> Screen {
        self.prev_screen
    }

    pub closed spec fn spec_conn(&self) -> ConnState {
        self.conn
    }

    /// Opens on the Status screen, with nothing checked or connected yet.
    pub fn new(status: S) -> (r: Self)
        ensures
            r.spec_status() == status,
            r.spec_screen() == Screen::Status,
            r.spec_prev_screen() == Screen::Status,
            r.spec_conn().open_notebook.tool_status is None,
            !r.spec_conn().open_notebook.checking,
            r.spec_conn().open_notebook.password@ == Seq::<char>::empty(),
            r.spec_conn().open_notebook.base_url is None,
            !r.spec_conn().open_notebook.changed,
            r.spec_conn().open_notebook.last_error is None,
            !r.spec_conn().docker,
    {
        GuiApp { status, screen: Screen::Status, prev_screen: Screen::Status, conn: ConnState::new() }
    }

    /// The server status this window shows.
    pub fn status(&self) -> (r: &S)
        ensures
            *r == self.spec_status(),
    {
        &self.status
    }

    /// The Connections screen's state.
    pub fn conn(&self) -> (r: &ConnState)
        ensures
            *r == self.spec_conn(),
    {
        &self.conn
    }

    /// The Connections screen's state, to update it.
    pub fn conn_mut(&mut self) -> (r: &mut ConnState)
        ensures
            *r == old(self).spec_conn(),
            final(self).spec_conn() == *final(r),
            final(self).spec_status() == old(self).spec_status(),
            final(self).spec_screen() == old(self).spec_screen(),
            final(self).spec_prev_screen() == old(self).spec_prev_screen(),
    {
        &mut self.conn
    }

    /// The screen on display.
    pub fn screen(&self) -> (r: Screen)
        ensures
            r == self.spec_screen(),
    {
        self.screen
    }

    /// A click on a bottom-bar tab.
    pub fn select(&mut self, target: Screen)
        ensures
            final(self).spec_screen() == target,
            final(self).spec_prev_screen() == old(self).spec_prev_screen(),
            final(self).spec_status() == old(self).spec_status(),
            final(self).spec_conn() == old(self).spec_conn(),
    {
        self.screen = target;
    }

    /// Called once per frame before drawing: `true` when detection must be
    /// started, that is when the Connections screen is on display and was not
    /// in the previous frame.
    pub fn begin_frame(&mut self) -> (start_detection: bool)
        ensures
            start_detection == starts_detection(old(self).spec_screen(), old(self).spec_prev_screen()),
            final(self).spec_screen() == old(self).spec_screen(),
            final(self).spec_prev_screen() == old(self).spec_screen(),
            final(self).spec_status() == old(self).spec_status(),
            final(self).spec_conn() == old(self).spec_conn(),
    {
        let start = self.screen == Screen::Connections && self.prev_screen != Screen::Connections;
        self.prev_screen = self.screen;
        start
    }
}

/// Detection runs once per visit of the Connections screen: a frame starts
/// it exactly when Connections is on display and was not in the previous
/// frame, so the next frame on the same screen does not start it again.
pub proof fn detection_starts_once_per_visit(screen: Screen, prev: Screen)
    ensures
        starts_detection(screen, prev) <==> (screen == Screen::Connections && prev != Screen::Connections),
        !starts_detection(screen, screen),
{
}

/// `host_only` turns `http://host:port` into `host:port` (for a `host:port`
/// that does not itself begin with a scheme).
pub proof fn host_only_drops_the_scheme(host_port: Seq<char>)
    requires
        !has_prefix(host_port, "http://"@),
        !has_prefix(host_port, "https://"@),
    ensures
        spec_host_only("http://"@ + host_port) == host_port,
{
    reveal_strlit("http://");
    reveal_strlit("https://");
    let u = "http://"@ + host_port;
    assert(has_prefix(u, "http://"@)) by {
        assert(u.subrange(0, 7) =~= "http://"@);
    }
    assert(u.subrange(7, u.len() as int) =~= host_port);
    assert(trim_start_all(u, "http://"@) == trim_start_all(host_port, "http://"@));
}

/// Until a request is served the latency reads `— ms`; after that it is
/// the last latency in decimal digits, whose value is that latency, then ` ms`.
pub proof fn latency_text_reads_back_the_latency(requests_served: u64, last_latency_ms: u64)
    ensures
        requests_served == 0 ==> spec_latency_text(requests_served, last_latency_ms) == "\u{2014} ms"@,
        requests_served > 0 ==> {
            let t = spec_latency_text(requests_served, last_latency_ms);
            &&& has_suffix(t, " ms"@)
            &&& t.len() > 3
            &&& all_digits(t.subrange(0, t.len() - 3))
            &&& digits_value(t.subrange(0, t.len() - 3)) == last_latency_ms
        },
{
    reveal_strlit(" ms");
    if requests_served > 0 {
        let d = decimal(last_latency_ms as nat);
        let t = spec_latency_text(requests_served, last_latency_ms);
        lemma_decimal_parses_back(last_latency_ms as nat);
        assert(t.subrange(0, t.len() - 3) =~= d);
        assert(t.subrange(t.len() - 3, t.len() as int) =~= " ms"@);
    }
}

} // verus!
