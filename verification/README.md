# valiforge

The verified core of ValiForge, a headless API validation engine: it reads an
OpenAPI 3.x document, probes the live API it describes and reports where the
responses drift from the contract.

Layout:

- `src/` — the library, verified with Verus.
  - `types.rs` — endpoint results, violations, report summaries, the engine context.
  - `engine.rs` — the decisions of probing an endpoint: the request to send, the
    retry and backoff schedule, and the result of each response or failure.
  - `openapi.rs` — the model of an OpenAPI document and the endpoints it yields.
  - `report.rs` — XML escaping and the JUnit and Markdown renderers.
  - `detect.rs` — where schema files are looked for, and which were found.
  - `config.rs` — the `valiforge.toml` model and the settings taken from it.
  - `text.rs` — decimal rendering and character-wise text helpers.
  - `external.rs` — the declarations through which verified code names std and
    outside-crate items.
- `app/` — the I/O around the library: HTTP with `reqwest` and `tokio`, files,
  TOML and JSON through serde, and the floating-point rendering of durations.
- `tests/` — tests of the library.
