# tectonic-api

An HTTP API that compiles TeX/LaTeX to PDF with
[Tectonic](https://github.com/tectonic-typesetting/tectonic), caches the PDFs
and registers itself with Consul. The decisions of the service are a library
verified with Verus; the server around it is ordinary Rust.

- `src/` — the verified library:
  - `text` — Unicode white space, splitting into words, unsigned decimals
    (parsed as `str::parse` does, written as `format!` does), trimming `/`.
  - `bundle_index` — the index of a TeX Live bundle: reading its lines and
    cutting its files out of the bundle's byte stream.
  - `consul` and `headers` — the typestate builder of a Consul registration,
    the request that registers the service and the one that deregisters it.
  - `settings` — the server's settings from its environment variables.
  - `reply`, `v1`, `api`, `compile` — the replies of the HTTP handlers.
  - `features`, `state` — the names of a Tectonic job, the PDF among its
    outputs, and the weight of a cached PDF.
- `tests/` — tests of the library.
- `app/` — the server: axum routes and handlers, the moka cache, Tectonic,
  the HTTP requests to Consul, and the maintenance scripts.
