# axum-stack

Axum server utilities — CORS presets, request-id layers, health routes,
a middleware stack and a one-line server. The deciding parts form a
library whose functions carry contracts proved correct.

## Layout

- `src/` — the library (crate `axum_stack`):
  - `headers.rs` — header values, header names and methods of `http`, and
    the byte rules a header value follows;
  - `cors_layer.rs` — the builder calls of `tower_http::cors::CorsLayer`;
  - `cors.rs` — origin validation and the permissive / restrictive / API
    presets;
  - `request_id.rs` — the `x-request-id` set and propagate layers;
  - `health.rs` — the liveness, readiness and detailed health answers;
  - `server.rs` — server errors and the bind/serve decisions.
- `app/` — the Axum glue: health routes that await the `healthkit`
  registry and write JSON, the boxed middleware stacks, and `serve`
  (network I/O), plus error types with `std::error::Error`.
- `tests/` — the tests, run against the compiled library.
