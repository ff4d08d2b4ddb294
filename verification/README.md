# ferrotick

Provider-neutral market-data routing and strategy bookkeeping, with the
decision logic proved correct by Verus.

## Layout

- `src/` — the verified library.
  - `source`, `requests`, `adapters`, `yahoo`: providers, their capabilities
    and health, request validation, the HTTP requests each adapter sends,
    the instruments a search reports and the times of Alpha Vantage bars.
  - `http_client`: the request/response model, authentication headers,
    percent-encoding and decoding,
    query-string helpers and the offline transport's choice of canned reply.
  - `reports`: which line items a Yahoo financial statement holds, how
    earnings quarters are numbered, and where each fundamental is read from.
  - `routing`, `builder`: source plans (automatic, priority, strict), the
    routing session that tries providers in turn, and router assembly.
  - `cache`: the time-to-live response cache.
  - `retry`, `throttling`: retry jitter and the queue of throttled requests.
  - `ml`: indicator selection, the trading-agent vocabulary, dataset row
    selection, classification counts and cross-validation folds.
  - `optimization`, `storage`: parameter grids, walk-forward windows and the
    naming of stored runs.
  - `assets`, `text`: instrument vocabulary, expiry parsing and the string
    helpers the rest is built on.
- `app/` — ordinary Rust around the library: the async transports, reading
  search replies, company reports and Alpha Vantage bar series, the shared cache, rate limiting, the routing driver, Yahoo's network steps, and the
  floating-point models (option pricing, feature transforms and indicators, reinforcement
  learning, dataset scaling, walk-forward sizing).
- `tests/` — tests of the library's behaviour on concrete values.

Run `verus` on `src/lib.rs` to check the proofs.
