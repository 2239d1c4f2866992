# replayable-proxy

An L4 sidecar proxy for OpenAI-compatible chat-completion APIs. It forwards
`POST /v1/chat/completions` to a configured upstream, relays the answer
(buffered or as an SSE stream), and writes one `AgentTrace` JSON line per
request to a log file.

## Layout

- `src/` — the library, with its specifications and proofs:
  - `config.rs` — configuration from environment variables, the upstream
    URL policy (no cloud-metadata hosts, plaintext only to loopback unless
    overridden), defaults.
  - `forward.rs` — the request handler as a step function from phase and
    event to next phase and action, what each refusal is answered, the
    body-size check, and the tee that aggregates a stream for its trace.
  - `headers.rs` — hop-by-hop filtering, SSE detection, SSE hygiene headers
    and the scrubbed header snapshot written to traces.
  - `json.rs` — model name and token usage read from JSON bodies.
  - `trace.rs` — the trace record, its assembly, and the writer's flush and
    drop-counting decisions.
  - `text.rs` — character-level helpers (trimming, ASCII case, integer
    parsing).
- `app/` — the server: environment, sockets, the axum router, the upstream
  client, the writer task and graceful shutdown. It performs the I/O the
  library's decisions ask for.
- `tests/` — tests of the library's public functions.

Configuration variables: `REPLAYABLE_UPSTREAM_URL` (required),
`REPLAYABLE_LISTEN` (default `127.0.0.1:8080`), `REPLAYABLE_LOG_PATH`,
`REPLAYABLE_LOG_CHANNEL_CAPACITY`, `REPLAYABLE_CAPTURE_CONTENT` (default off),
`REPLAYABLE_MAX_REQUEST_BYTES` (default 10 MiB), `REPLAYABLE_CONNECT_TIMEOUT_SECS`,
`REPLAYABLE_READ_TIMEOUT_SECS`, `REPLAYABLE_UPSTREAM_ALLOW_PLAINTEXT`.
