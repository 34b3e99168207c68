# quicklendx

The storage layer of the QuickLendX invoice-financing protocol, written in
Verus: every operation carries a `requires`/`ensures` contract over an
abstract model of the ledger, and Verus proves the code against it.

## Layout

- `src/types.rs` — invoices, bids, investments, their status enums and the
  reports of the maintenance operations, with views into Verus's `Seq`/`Map`.
- `src/symbol.rs` — short symbols (up to nine characters of `[_0-9A-Za-z]`)
  and their six-bit packed encoding.
- `src/errors.rs` — the protocol's error enum, its stable numeric codes and
  its short symbols.
- `src/table.rs` — a verified key/value table (`Table`) whose view is a `Map`.
- `src/ledger.rs` — the ledger storage (`Ledger`) and its model
  (`LedgerModel`): records, frozen flags, identifier lists, counters and
  instance configuration.
- `src/storage.rs` — storage keys, secondary indexes and the invoice storage
  operations: store, update, delete, queries, integrity audits, paginated
  index rebuilding and pruning.
- `src/bid.rs`, `src/investment.rs` — read access to bid and investment
  records and their indexes, as used by the audits.
- `src/laws.rs` — properties that span several operations: each invoice
  lives in exactly one status bucket, reads after writes, what store and
  delete do to each list, idempotent and resumable rebuilding, resumable
  pruning and what it may remove, which operations keep the audits clean,
  the agreement of the category index with the records, and the agreement
  of the invoice counter with the status buckets.
- `src/source_scan.rs` — detection of the `unsafe` keyword in source text.
- `app/lib.rs` — host-side glue that needs the Soroban environment: TTL
  extension of persistent entries and conversion of errors and symbols to
  host values.
- `tests/` — executable tests of the library.
