# dipole_oracle

Verified pallets of an energy-data oracle: an operator registry for meters
and charging points, a goods oracle fed with meter readings per tariff
period, a pay oracle fed with payment prices, and a collector that gathers
what both oracles received since the last collection.

- `src/utilities.rs`: the shared data types, origins, errors and the
  provider traits.
- `src/operator.rs`: registration (identifier = BLAKE2b-256 of the SCALE
  encoding of seed, account and nonce), update and closing of operators.
- `src/goods_oracle.rs`: feeding readings and collecting, per account, the
  growth of each period since the first reading.
- `src/pay_oracle.rs`: feeding and collecting payment prices.
- `src/collector.rs`: one collection over both oracles.
- `src/laws.rs`: properties that span several calls.
- `src/storage_map.rs`: keyed storage and the update-pool list operations.
- `src/hashing.rs`: the calls into `parity-scale-codec` and `sp-io`.
- `app/lib.rs`: a host that keeps the pallets together and stamps feeds
  with the wall clock.

Every function in `src/` carries a contract proved by Verus, except the two
wrappers in `src/hashing.rs`: their contracts describe the outside calls
they make and are trusted, not proved.
