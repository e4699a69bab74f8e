# axk_settlement

Verified settlement logic for commodity trade on Stellar: an escrow that holds
a buyer's payment against one trade, a splitter that divides a released
payment between the parties to the trade, and a write-once registry of
settled-trade digests.

- `src/` is the library, verified with Verus. Each contract is a value holding
  its storage (`Escrow`, `Splitter`, `Registry`), with a view over maps and an
  operation per entry point. An operation returns the signatures it demands
  and its result; payments come back as `Transfer`s. The record-level
  `decide_*` functions hold each decision on its own, for a caller that keeps
  the records elsewhere. The laws of each contract are proof functions named
  `law_*` beside it.
- `app/` deploys the three contracts on Soroban: it reads storage and the
  ledger, asks for the demanded signatures, carries out the transfers and
  writes back the records, leaving every decision to the library.
- `tests/` exercises the library on concrete values.
