# text-sender

A terminal client that edits a URL and a multi-line body and sends them as an
HTTP request. The editing logic, key handling and response formatting form a
verified library in `src/`; `app/main.rs` is the terminal front end (drawing
with ratatui, key events from crossterm, requests through reqwest on tokio).

## Layout

- `src/text.rs` — text as characters addressed by UTF-8 byte offsets:
  character widths, byte lengths, valid offsets, trimming, joining lines.
- `src/method.rs` — the request methods and their cycle order.
- `src/palette.rs` — the colours the interface uses.
- `src/status.rs` — request status, its labels, and turning a response
  (code and text) into a status.
- `src/editor.rs` — the editing state (`App`), its model `AppView`, and every
  editing step, each specified as a function on the model.
- `src/input.rs` — keys, what each key does (`after_key`), and when a request
  is sent (`send_outcome`).
- `src/render.rs` — what the panes show: cursor highlighting, body scrolling,
  response pane title and text.
- `src/laws.rs` — properties relating several steps (undo pairs, cycles, the
  line break a newline adds to the body text).
