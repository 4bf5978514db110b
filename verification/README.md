# stock_crawler

The rules of a Taiwan stock data service, verified with Verus: the checks
and answers of its read-only data API, the manual backfill admin (request
fields, job admission, the job board), the Telegram notifier's message
splitting and retry policy, and the gRPC side's small decisions.

## Layout

- `src/` — the verified library.
  - `text`, `order`, `calendar`, `decimal`: plain-value building blocks
    (character sequences, integer text, lexicographic order, dates and
    exact decimals) with the few calls into `chrono` and `rust_decimal`.
  - `api`, `stocks`, `fundamentals`, `market`, `screening`, `cagr`: the
    data API's parameter checks, conversions and answer builders.
  - `symbols`, `backfill`, `job_board`, `backfill_page`: the backfill
    admin's field readers, tasks, reports and the board of jobs.
  - `telegram`: chunking, pacing, the fan-out tally and the retry policy.
  - `auth`, `rpc`: the bearer key check (`subtle`), the TLS decision, the
    certificate description (`rustls-pki-types`, `x509-parser`) and the
    gRPC job message.
- `tests/` — tests of the library on concrete values.
- `app/` — the edges: axum routes and handlers, the tonic service and
  server, the reqwest Telegram client, serde/utoipa wire types, and the
  ports through which the host process reaches its database.
  The Telegram client calls the Bot API with `reqwest`, in place of an
  HTTP helper of the host program that is not part of this crate.
