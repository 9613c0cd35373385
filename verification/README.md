# upgrade_verifier

Checks a zkSync protocol upgrade to version 0.29 against what it must
contain, with the checks proved correct by Verus.

The library (`src/`) works on plain values — bytes, words, addresses,
names — and records what it finds in a `VerificationResult`:

- `bytes` — addresses and EVM words, and the numbers they denote.
- `alias` — the L1-to-L2 address alias (address plus a fixed offset).
- `protocol_version` — versions as text and as packed into a word.
- `report` — the report: notes and errors, in order.
- `registry` — bytecode hashes to file names, addresses to contract names.
- `abi` — Solidity ABI encoding and decoding, hex decoding and
  Keccak-256, done by the `alloy` crate.
- `force_deployment` — the contracts the upgrade force-deploys, and their check.
- `factory_deps` — the check of the upgrade transaction's factory
  dependencies, one dependency at a time.
- `upgrade` — the proposed upgrade: its transaction's fields, its complex
  upgrade call, and its own fields.
- `upgrade_check` — the whole check of the upgrade transaction and of the
  proposed upgrade, in order, one step at a time: for each accepted
  factory dependency it asks its caller for the block in which the
  bytecode was published, and its final step states the whole report.

Each check states in its contract exactly which entries it appends to the
report; proof functions state when a check records no error.

`app/` holds the side that talks to the world: the Solidity types as
`alloy` decodes them and their conversion to the library's types, the
loops that answer the library's publication queries over the network, and the report as text. `tests/` runs the library on concrete
upgrades.
