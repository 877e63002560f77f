# bge-embed-rs

A local bge-m3 embedding server (OpenAI-compatible `POST /v1/embeddings`)
with a small window that wires local RAG tools to it. The logic is a Verus
library; the program around it is ordinary Rust.

- `src/` — the verified library
  - `connectors.rs`: the Open Notebook exchange as two state machines
    (`StatusProbe`, `ConnectRun`) that hand out requests and decide on the
    replies; the embedding URL; the manual-setup snippets.
  - `notebook_laws.rs`: properties of every step and of whole runs.
  - `notebook_model.rs`: Open Notebook's side as a model, and what a
    connect run leaves behind (connected afterwards, idle whenever the
    status probe already reports it connected).
  - `server.rs`: request inputs, settings, position ids, worker count,
    results back in input order.
  - `theme.rs`, `gui.rs`: design tokens, the screen rules, and the
    Connections screen's per-tool state.
  - `text.rs`: character-level string helpers.
- `app/` — the server (axum, candle, tokenizers, hf-hub), the HTTP side of
  the connector (ureq), and the egui drawing code.
- `tests/` — tests of the library, including the connector driven against
  an in-memory Open Notebook.
