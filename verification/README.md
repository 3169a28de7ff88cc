# control_api

Authorization of the controllers of a remote-desktop rendezvous server. A controller
presents the token of its login with every connection it asks for; an external control
API says which tokens are authorized. The library decides from its settings, from the
verdicts it keeps and from the API's answers, and writes every request that is sent. It
is verified with Verus.

- `config`: settings from arguments; an empty address turns everything off.
- `check`: the check of a token, before and after the API is asked; the laws on how long
  a verdict stands.
- `verify`: the question to `/tokens/verify` and the reading of its answer.
- `seen`: the throttled reports to `/peers/seen`.
- `attempts`: the audit events to `/connections/attempt`, one for all repeats.
- `blocks`: the last refused connections.
- `diag`: the diagnostics for the console.
- `ledger`: stamped entries by name, which the three tables above share.
- `clock`, `json`, `request`, `text`: readings of clocks, JSON objects, requests and text.
- `laws`: what holds of every request.

Trusted are `clock::rfc3339` (chrono), `json::read_object` and `json::write_object`
(serde_json) and `diag::quote` (the standard library's `{:?}`).

`app/` runs the library in a server: environment, clocks, locks and the HTTP client.

| Variable | Default | Meaning |
|---|---|---|
| `CONTROL_API_URL` | empty | Base address of the API; empty turns authorization off. |
| `CONTROL_API_TOKEN` | empty | Sent as `Authorization: Bearer`. |
| `CONTROL_API_FAIL_OPEN` | `N` | `Y` lets controllers pass when the API gives no verdict. |
| `CONTROL_API_TIMEOUT_MS` | `2500` | Timeout of a request. |
| `CONTROL_API_CACHE_SECS` | `60` | How long a verdict stands. |
| `CONTROL_API_SEEN_SECS` | `300` | Time between two reports of a peer. |
| `CONTROL_API_ATTEMPTS` | on | `N` turns the audit events off. |
| `CONTROL_API_ATTEMPT_DEDUPE_SECS` | `60` | How long an event stands for its repeats. |
