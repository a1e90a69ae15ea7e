# polymarket_backend

Backend of a research cockpit for Polymarket crypto Up/Down markets (BTC 5m,
ETH 15m): Coinbase tick ingestion, Polymarket snapshots, live market state and
candles, a baseline direction model with position sizing, backtest replay and
production eligibility, and Feishu alerts. It produces signals and paper order
suggestions only; it places no orders.

## Layout

- `src/` — the library, verified with Verus. Every function carries a
  `requires`/`ensures` contract over spec models (`Seq`, `Set`, `int`, views of
  the data types).
  - `text`, `decimal`, `json`, `timefmt` — text helpers, exact decimals (backed
    by `bigdecimal`; scales stay within ±(2^62 − 1), so that aligning two of
    them never overflows, and parsing refuses texts beyond that), JSON values
    with their serialized text, calendar times.
  - `realtime` — market keys and windows, normalization of Coinbase and
    Polymarket payloads, candles, the live state, bus and storage-bridge
    decisions, collector message handling and proxy handshakes.
  - `model` — the model contract, the baseline direction model, sizing, the
    registry, input snapshot hashing and the model runtime's counters.
  - `backtest` — replay of windows, profit and loss, losing streaks, drawdown
    and production eligibility.
  - `notification` — Feishu card rendering, channel selection, dedupe, retry
    schedule, delivery audits and counters.
  - `storage` — records, pool options, and the writer's retry and counters.
  - `api`, `health`, `config` — request checks, report rows, the cockpit view,
    health, and configuration from environment variables.
- `app/` — the service around the library: tokio tasks and channels, the
  websocket and HTTP clients, Postgres access, the axum router, and the backtest
  metrics computed in floating point.
- `tests/` — tests of the library.
