# madrigal

Backend of a behavioural fraud-scoring service. Client SDKs send browsing
events; each event is scored from three layers (the user's own behaviour,
the network it comes from, and globally learned human patterns) and answered
with `allow`, `challenge` or `block`.

Layout:

- `src/` — the verified library (Verus). It holds the decisions of the
  service: request and account checks (`auth`, `apikey`, `error`), identity
  and graph keys (`identity`), network risk signals (`network`), scoring
  vocabulary (`scoring`), per-session bookkeeping (`session`), global pattern
  similarity and promotion (`patterns`), ingestion helpers (`ingest`) and
  character-level string helpers (`text`). Calls into `uuid`, `bcrypt` and a
  few `std` string functions stand behind small wrappers whose contracts are
  trusted.
- `app/` — the HTTP server (axum, sqlx, sled): handlers, storage, token
  signing, and the floating-point models (behaviour graph, embeddings,
  session features, weighted score combination).
- `tests/` — tests of the library.
