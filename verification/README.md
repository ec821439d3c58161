# bff

A Backend-For-Frontend gateway: OIDC login with encrypted session tokens,
declarative YAML routes (reverse proxy with token exchange, pipelines of
HTTP and script steps laid out as a DAG, scripts, static answers), a
single-page application, and an admin port for configuration and sessions.

- `src/` is the library, verified with Verus: configuration defaults,
  validation and secret masking, the step DAG and pipeline bookkeeping,
  input/output mappings and templates, route matching, proxy decisions
  (URLs, headers, retries, circuit breaker), RFC 8693 token exchange,
  OIDC flow checks, token sealing, rate-limit and allow-list decisions,
  and the admin endpoints' rules. Calls into `aes-gcm`, `argon2`,
  `base64`, `sha2`, `url`, `percent-encoding`, `ipnet`, `humantime` and
  `petgraph` stand behind small trusted wrappers whose contracts say what
  those crates do.
- `app/` is the process around it: the axum routers and middleware, the
  OIDC client, outbound HTTP, WebSocket and SSE streaming, the Rhai
  engine, in-memory providers and configuration loading.
- `tests/` exercises the library through its public API.
