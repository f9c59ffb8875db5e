# sovereign_bridge

The decision logic of the MultiversX sovereign-bridge contracts and of their
test and interactor tooling, written in Verus with machine-checked contracts.

## Layout

- `src/` — the verified library.
  - `chain_config.rs`, `validator_rules.rs`, `config.rs`: the Chain-Config
    contract: configuration rules, validator registration and unregistration
    with stake, setup phase, signed configuration and validator updates, and
    the laws that keep the three validator maps consistent.
  - `chain_factory.rs`, `bridge.rs`, `bls.rs`: the Chain-Factory (admins,
    template deployments, setup completion, chain identifiers), bridge
    deployment and the signer set.
  - `fee.rs`: the fee market: fee configuration, fee subtraction and the
    distribution of collected fees.
  - `cross_chain.rs`: deposit checks and planning, execution helpers, token
    pairing across the bridge.
  - `common_utils.rs`, `token.rs`, `errors.rs`, `types.rs`, `bytes.rs`,
    `store.rs`, `hash.rs`: shared rules, token identifiers, error messages,
    small collections, and the hashing and encoding calls.
  - `logs.rs`, `interactor.rs`, `state.rs`, `test_setup.rs`: the checks and
    bookkeeping of the test world and of the interactor (expected logs and
    balances, operation nonces, recorded contracts, bitmaps of signers).
  - `token_issue.rs`: how the interactor issues, mints and files its test
    tokens.
  - `account_storage.rs`: hexadecimal and UTF-8 decoding of storage keys and
    values, and the check of an account's storage.
  - Contract storage: the contracts keep their state in MultiversX storage
    mappers, which read and write the storage of a running contract through
    the virtual machine's API and hold no values of their own. Outside a
    contract they have nothing to declare, so `store.rs` gives each contract
    its storage as plain verified maps (`IdMap` keyed by identifier,
    `BytesMap` keyed by bytes, both remembering the order of their keys), and
    every endpoint is a function from the old storage to the new one.
- `tests/` — tests of the library, run against the compiled crate.
- `app/` — the parts that do I/O: the interactor's TOML state file, random
  identifiers and keys, and assertions that turn the library's verdicts into
  test failures.

