# ferrum

The verified core of a sovereign-federation chain: its modules are plain Rust
state machines whose every public function carries a Verus contract.

- `identity`, `credential` — `did:fer` documents and credential anchors, with
  nullifier-logged presentations.
- `tax`, `treasury` — e-invoice anchoring, obligations settled in eTWD,
  FER pools, burn and subsidies.
- `federation`, `voting` — council proposals under the dual (count and
  basket-weight) majority, the timelock, and the fully backed XSU.
- `interop` — GRANDPA light-client finality (`grandpa`, `scale`), clearing
  and netting, cross-border ZK presentations, treaties and OSS VAT.
- `lottery` — the e-invoice lottery: ZK-gated tickets, commit–reveal
  entropy with slashing, deterministic winner selection, one-time claims.
- `zk` — Groth16 (BLS12-381) decoding and verification, public-input
  mapping for each circuit, and BBS-style selective disclosure.

Calls into ark-groth16, blake2, sp-crypto-hashing, sp-core's ed25519 and the GRANDPA crates
stand behind a few trusted wrappers (`hashing`, `grandpa`, `zk`), each with
its contract stated in its doc comment. The runtime-facing services a module
consumes (invoice registry, payout, reserve, currency) are traits the
embedding supplies; `tests/` supplies in-memory ones. Each such trait
states, over spec records its implementations define, what a call hands
the service and what the service does with it.
