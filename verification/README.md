# ttl_backend

The verified core of the TTL-Legacy backend, written in Verus.

- `src/rate_limit.rs`: fixed-window rate limiting per client address, with
  the laws of the window budget.
- `src/headers.rs`: header values as text and the client address taken from
  `X-Forwarded-For` / `X-Real-IP`.
- `src/payload.rs`: the little-endian `u64` / `i128` decoders of
  multi-signature payloads.
- `src/routes.rs`: the request-level decisions of the HTTP routes and the plan
  of an audit-log export (RFC 3339 bounds parsed by chrono).
- `app/`: the axum middleware and response assembly around the library.
