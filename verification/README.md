# harbor

Harbor hosts applications on one machine: it supervises their processes
(restart policies with exponential backoff, recovery after a daemon restart),
routes HTTP and HTTPS traffic to them by domain or path prefix, manages
their certificates (self-signed, or ACME over HTTP-01), and is driven by a
command-line client over a token-protected local API.

## Layout

- `src/` — the verified library (Verus). Each module states its behaviour in
  `requires`/`ensures` contracts over mathematical models, and the laws that
  span several operations as public proof functions named `law_*`.
  - `text` — string helpers with exact specifications (trimming, lines,
    case folding, ordering, decimal rendering, joining).
  - `app`, `paths`, `detect` — app configuration, the installation layout,
    runtime detection and default launch commands.
  - `namemap`, `supervisor` — the supervisor's state: apps kept sorted by
    name, their run-time bookkeeping, restart decisions and backoff,
    desired-state recovery, and request routing.
  - `proxy`, `tls`, `acme` — the proxy's per-request decision, certificate
    selection by SNI, and the steps of one ACME issuance.
  - `api`, `token` — the management API's decisions and its bearer token.
  - `cli`, `service` — the client's requests and output, and the steps of
    registering the daemon as a systemd or launchd service.
- `tests/` — tests of the library on concrete values.
- `app/` — the programs around the library: the daemon (`harbord`: process
  spawning, the HTTP API, the proxy listeners, file watching) and the CLI
  (`harbor`), which perform the I/O the library decides on.

## Data structures

The supervisor's apps, the certificates by domain and the pending ACME
challenges are kept in vectors rather than hash maps, so that their contents
have a model Verus can reason about: the apps as a vector strictly ordered
by name (their map view is what the contracts speak of, and the order makes
`status` list them by name), and the other two as `NameMap`, a vector of
distinct keys. An app's environment, a sorted map in its config file, is a
vector of pairs strictly ordered by name; the supervisor's well-formedness
includes that order, and `env_is_sorted` lets callers check it.

## Platforms

`harbor service` registers the daemon with systemd (Linux), launchd (macOS)
or the Windows Service Control Manager; on Windows the daemon runs in service
mode with `harbord --windows-service`. The library decides the steps of each
service command for every platform; `app/` performs them.
