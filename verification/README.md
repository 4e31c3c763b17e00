# atombot

A small tool-calling AI agent. The decisions it takes are written in Verus
and proved against their contracts; the input and output around them is
plain Rust.

## Layout

- `src/` — the verified library.
  - `agent.rs` — the conversation state and the tool-calling loop as a state
    machine: each call says what to do next (call the model, run a tool, or
    finish) and what the history becomes.
  - `agent/message_window.rs` — pruning the history to a size limit while
    keeping the system message and cutting at user turns.
  - `agent/tools/` — the tools' logic: path sandboxing (`allowed_dir.rs`),
    the shell command guard and output report (`exec.rs`), reading, writing,
    editing and listing files (`filesystem/`), web search planning and
    result formatting (`web_search.rs`), web page text extraction
    (`web_fetch.rs`).
  - `security/network.rs` — the SSRF guard: which URLs and addresses are
    refused.
  - `provider/` — the model response type and the OpenAI-compatible
    provider's request URL and response decoding.
  - `bus/events.rs` — the messages exchanged with chat channels.
  - `text.rs`, `pattern.rs` — string algorithms with contracts, and the
    calls into `regex`, `scraper`, `html-escape`, `urlencoding` and
    `serde_json` with what is assumed of them.
- `app/` — the runtime: the model client (`async-openai`), the file system,
  processes and HTTP requests the tools need, DNS lookups, logging, the
  message bus, a command-line chat and a web UI.
- `tests/` — tests of the library on concrete values.
