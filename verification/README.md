# lending

Verified core of an NFT-collateralised lending protocol on Soroban.

- `src/interest.rs` — per-month interest accrual with partial-month proration,
  its mathematical model, and the laws it obeys (never decreasing over time,
  daily granularity, the last schedule entry repeating).
- `src/oracle.rs` — USD/token conversions at an oracle price, the verdict on an
  oracle reading (missing, stale, future-dated), and the round-trip and
  monotonicity laws of the conversions.
- `src/types.rs` — listings, positions, platform configuration and statuses.
- `src/host.rs` — the Soroban host types and calls the library relies on.
- `app/` — the Soroban-facing layer: `contracttype` records, the Reflector
  client, and the oracle lookup that reads the oracle and the ledger clock
  and feeds the library.
