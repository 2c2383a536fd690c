# apm_monitor

A desktop monitor for Tencent Cloud APM, container (TKE) and database metrics.
The logic of the application is a Verus-verified library; the window, the
network and the browser automation are a thin shell around it.

Layout:

- `src/` — the verified library.
  - `text` — character-level string helpers with exact contracts.
  - `json` — a small JSON value model used by every payload builder and reader.
  - `cred`, `login`, `config` — login cookies, CSRF tokens, session records and
    the configuration merge rules.
  - `console`, `apm`, `container`, `db`, `capi`, `tc3` — request payloads and
    answer readers for the cloud console, the APM service, TKE, databases, the
    dashboard CAPI and TC3-HMAC-SHA256 signed API calls.
  - `cdp`, `reqable` — the decision logic of the DevTools-driven login watcher,
    the CAPI token scan and the capture-tool login import, written as state
    machines that take events and return the next command.
  - `commands` — query planning, result assembly and the session keeper.
- `tests/` — tests run against the compiled library.
- `app/` — the Tauri program: commands, I/O, the WebSocket and HTTP clients,
  and serde copies of the library types.

Verify with Verus from this directory; the tests run with `cargo test`.
