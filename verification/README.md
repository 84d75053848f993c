# miden_clob

A central limit order book on Miden whose orders are partially fillable swap
(SWAPP) notes. The library in `src/` is verified with Verus; `app/` holds the
programs around it (HTTP server, matching engine, depth chart monitor and
market maker), which talk to the Miden node, the SQLite order store and the
network.

## Library (`src/`)

- `swap_math` — the partial-fill arithmetic of an order, with its laws
  (pro rata, conservation, full fill).
- `assets` — account identifiers and fungible assets as plain values, and the
  checks that Miden applies to them.
- `swapp_note` — the input layout of SWAPP notes, reading an order back from a
  note, and the serial numbers derived from an order.
- `contract_notes` — the input layouts of P2ID and option contract notes.
- `matching` — crossing two orders: when they match, which one is partially
  filled, and the notes that settle the match; laws on what the matcher keeps
  and on the prices the orders trade at.
- `engine` — the decisions of a matching cycle: which pairs to cross, how a
  failed batch is split, which matches are stale, how fills are recorded.
- `pricing` — orders stated as price and quantity, and the side of an order.
- `depth` — the depth chart (bids and asks in price order with running
  totals) and price levels.
- `note_codec`, `status`, `api` — the text forms used by the order store and
  the HTTP interface.
- `setup` — the mints that fund freshly created accounts.

## Programs (`app/`)

`app/main.rs` runs the HTTP server by default, or `matching-engine`,
`depth-chart` or `populate [--setup] [--once]`.
