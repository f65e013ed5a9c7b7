# ethos_vault

The rules of a vault service: vaults whose funds pass to a beneficiary when the owner stops
checking in, the records kept about them, webhooks that tell of their events, and a contract for
soulbound tokens. The library in `src/` is written and proved in Verus. `app/` is the ordinary
Rust around it: the SQLite connection, the HTTP routes and deliveries, and the ledger contract.

## The library

| Module | What it holds |
|---|---|
| `models`, `keyed`, `text`, `json` | records, the table by text key, text and JSON helpers |
| `timestamp` | points in time, backed by `chrono` |
| `vaults`, `analytics`, `cache` | the in-memory stores, search, counts, and cached reads |
| `sql`, `db`, `pool` | statements, rows and their faults, the handle and its settings |
| `insurance`, `reminders`, `two_factor`, `idempotency`, `unsubscribe`, `audit_log` | what the database keeps |
| `tables`, `table_laws`, `audit_laws` | a model of the tables, and what reads give back of writes |
| `migrations` | the schema, step by step |
| `ids`, `webhook` | fresh identifiers, registration, matching, signing and retries |
| `sbt`, `sbt_contract`, `sbt_laws` | the token contract: its state, its calls, and what every call keeps |

A function that needs the time or a random identifier comes in two forms: one takes it as an
argument and has an exact contract, the other obtains it and calls the first.

Functions named `law_...` are proofs of what holds across calls.

## What is taken on trust

The contracts of a few functions that call other crates are not proved: the clock, the calendar
and its texts (`chrono`), JSON values and texts (`serde_json`), random identifiers (`uuid`), HMAC-SHA256
(`hmac`, `sha2`), and `String::push`. Each says above it what it claims.
