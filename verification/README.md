# pallet_suite

The chain-side logic of the network's pallets: operator stake, slashing,
Yuma consensus, burn-mint equilibrium, the job market, model and
attestation registries, the nonce vault, the TWAP oracle, the treasury
extension and PoUW mint. Each pallet is a plain state type whose calls
take an origin (and, where they need them, the block number, database
weights or the currency) and return the event they emit or the error
that refused them. Every call is verified with Verus against its contract.

## Layout

- `src/` — the verified library.
  - `primitives.rs`: accounts, hashes, origins, saturating arithmetic,
    dispatch weights.
  - `keymap.rs`: the association map every pallet stores its data in.
  - `sums.rs`: sums over finite maps, used by the pallets' ledgers.
  - `sorting.rs`, `encoding.rs`: sorting and medians; SCALE encoding of
    accounts (through `parity-scale-codec`), BLAKE2-128-concat storage
    keys (through `sp-crypto-hashing`) and byte-string order.
  - one module per pallet, each with a `weights.rs` of dispatch weights;
    `yuma_consensus` is split into scoring, computation, permits, the
    validator ledger (`books.rs`), incentive shares and the storage
    migration.
- `tests/` — one test file per pallet.
- `app/` — runtime glue that needs FRAME: the balances pallet as the
  currency holding operator stake (used through the library's
  `CurrencyHandle`, which records every call made to it), and conversions
  between FRAME's origins, hashes and weights and the library's.
