# Ultimate Finance core

The verified core of a personal-finance service: a household ledger with
authorization rules, bank aggregation (provider registry, a deterministic mock
institution, the sync pipeline, webhook deduplication), and the integer side
of the planning engine (a seeded PRNG, loan amortization, the retirement
savings solver and outcome summary). The functions under `src/` carry Verus
contracts and are proved against them, with the exception of the trusted
items through which the library reaches outside code. Those have contracts
that Verus takes on trust, each stated in its doc comment against the
outside crate's behaviour:

| Trusted item | Outside code |
|---|---|
| `auth::argon2_hash`, `auth::argon2_verify` (and the name `argon2_accepts`) | `argon2` hashing (with `password_hash::SaltString::encode_b64`) and verification |
| `auth::os_random_bytes` | `rand_core::OsRng::try_fill_bytes` |
| `dates::days_before`, `dates::today_utc` | `time::Date::checked_sub`, `time::OffsetDateTime::now_utc` |
| `ids::now_nanos` | the UTC clock |
| `planning::sort_ascending` | `slice::sort_unstable` |
| the specification of `String::push` in `text` | `std` |
| `aggregate::ExReqwestError` | the `reqwest` error type, carried opaquely |

## Layout

| Path | What it is |
|---|---|
| `src/models.rs` | Domain records and their views (ids are `u128`, instants are UTC nanoseconds) |
| `src/table.rs`, `src/sorted.rs` | A keyed table with a map view; sorted collection of rows |
| `src/store.rs` | The in-memory ledger and its invariant (unique normalized emails, balance bookkeeping, cascades) |
| `src/store_laws.rs` | Properties spanning several store operations |
| `src/service.rs` | Request handling: guards, validation, and what each request does |
| `src/aggregate.rs`, `src/sync.rs` | Providers, the mock institution, the sync run and its laws |
| `src/seed.rs` | Demo data |
| `src/amortize.rs`, `src/planning.rs`, `src/rng.rs` | Planning math |
| `src/text.rs`, `src/dates.rs`, `src/ids.rs` | Text, calendar dates, identifiers and the clock |
| `src/auth.rs`, `src/error.rs` | Password hashing, session tokens, the error type |
| `app/` | The HTTP server (axum), the Plaid client, floating-point planning |
| `tests/` | Tests of the library |
