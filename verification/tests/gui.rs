use bge_embed_rs::connectors::Status;
use bge_embed_rs::gui::{endpoint_view, host_only, latency_text, phase_pill, tool_row_view, GuiApp, Phase, Screen, ToolState};
use bge_embed_rs::theme::light;

#[test]
fn phase_pill_maps_every_phase() {
    let p = light();
    assert_eq!(phase_pill(None, &p).0, p.warning);
    assert_eq!(
        phase_pill(Some(&Phase::Downloading { file: "f".into(), done_bytes: 0, total_bytes: None }), &p),
        (p.warning, "Downloading")
    );
    assert_eq!(phase_pill(Some(&Phase::Loading), &p), (p.warning, "Loading"));
    assert_eq!(phase_pill(Some(&Phase::Ready { url: "u".into() }), &p), (p.success, "Ready"));
    assert_eq!(phase_pill(Some(&Phase::Failed("e".into())), &p), (p.error, "Failed"));
}

#[test]
fn host_only_strips_scheme() {
    assert_eq!(host_only("http://localhost:5055"), "localhost:5055");
    assert_eq!(host_only("https://localhost:3001"), "localhost:3001");
    assert_eq!(host_only("localhost:8080"), "localhost:8080");
}

#[test]
fn rows_follow_status() {
    let p = light();
    let row = tool_row_view(Some(Status::Connected), "localhost:5055", "Needs a password", &p).unwrap();
    assert_eq!((row.dot, row.meta.as_str(), row.show_connect), (p.success, "Connected \u{b7} localhost:5055", false));
    let row = tool_row_view(Some(Status::NeedsKey), "localhost:5055", "Needs a password", &p).unwrap();
    assert_eq!((row.dot, row.meta.as_str(), row.show_connect), (p.warning, "Needs a password \u{b7} localhost:5055", true));
    let row = tool_row_view(Some(Status::Found), "localhost:5055", "x", &p).unwrap();
    assert_eq!((row.dot, row.meta.as_str(), row.show_connect), (p.text_muted, "Found \u{b7} localhost:5055", true));
    let row = tool_row_view(None, "localhost:5055", "x", &p).unwrap();
    assert_eq!((row.dot, row.meta.as_str(), row.show_connect), (p.text_muted, "Checking\u{2026}", false));
    assert!(tool_row_view(Some(Status::NotFound), "localhost:5055", "x", &p).is_none());
}

#[test]
fn latency_until_first_request() {
    assert_eq!(latency_text(0, 123), "\u{2014} ms");
    assert_eq!(latency_text(3, 1905), "1905 ms");
    assert_eq!(latency_text(1, 0), "0 ms");
}

#[test]
fn detection_starts_once_per_visit() {
    let mut app = GuiApp::new(7u32);
    assert_eq!(*app.status(), 7);
    assert_eq!(app.screen(), Screen::Status);
    assert!(!app.begin_frame());
    app.select(Screen::Connections);
    assert!(app.begin_frame());
    assert!(!app.begin_frame());
    app.select(Screen::Settings);
    assert!(!app.begin_frame());
    app.select(Screen::Connections);
    assert!(app.begin_frame());
    assert_eq!(app.screen(), Screen::Connections);
}

#[test]
fn endpoint_before_and_after_ready() {
    let (url, hint, copy) = endpoint_view(None, "127.0.0.1", "11435");
    assert_eq!(url, "http://127.0.0.1:11435/v1/embeddings");
    assert_eq!(hint, "Available once the model is loaded. OpenAI-compatible, model name: bge-m3");
    assert!(!copy);
    let (url, hint, copy) = endpoint_view(Some("http://127.0.0.1:11435/v1/embeddings"), "x", "y");
    assert_eq!(url, "http://127.0.0.1:11435/v1/embeddings");
    assert_eq!(hint, "OpenAI-compatible \u{b7} model name: bge-m3");
    assert!(copy);
}

#[test]
fn connection_state_starts_empty_and_applies_outcomes() {
    let app = GuiApp::new(());
    let conn = app.conn();
    assert_eq!(conn.open_notebook.tool_status, None);
    assert!(!conn.open_notebook.checking);
    assert_eq!(conn.open_notebook.password, "");
    assert_eq!(conn.open_notebook.base_url, None);
    assert!(!conn.open_notebook.changed);
    assert_eq!(conn.open_notebook.last_error, None);
    assert!(!conn.docker);

    let mut row = ToolState::new();
    assert_eq!(row.password_to_send(), None);
    assert!(row.try_begin());
    assert!(!row.try_begin(), "a second check waits for the first");
    row.finish_check(Some("http://127.0.0.1:5055".to_string()), Status::Found);
    assert_eq!(row.tool_status, Some(Status::Found));
    assert!(!row.checking);

    assert!(row.try_begin());
    assert_eq!(row.connect_target(), Some("http://127.0.0.1:5055".to_string()));
    row.finish_connect(Err("http 500".to_string()), Status::Found);
    assert_eq!(row.last_error.as_deref(), Some("http 500"));
    assert!(!row.changed && !row.checking);
    assert!(!row.shows_changed_caption());

    assert!(row.try_begin());
    assert_eq!(row.connect_target(), Some("http://127.0.0.1:5055".to_string()));
    assert_eq!(row.last_error, None, "a new connect clears the last error");
    row.finish_connect(Ok(true), Status::Connected);
    assert!(row.changed);
    assert!(row.shows_changed_caption());

    row.password = "hunter2".to_string();
    assert_eq!(row.password_to_send().as_deref(), Some("hunter2"));

    // Without a detected base URL a connect releases the row at once.
    let mut fresh = ToolState::new();
    assert!(fresh.try_begin());
    assert_eq!(fresh.connect_target(), None);
    assert!(!fresh.checking);
}
