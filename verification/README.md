# veritix_pay

The ledger logic of the VeriTix payment token, verified with Verus.

- `src/` is the verified library. `ledger.rs` models the contract's persistent
  storage as a map from `DataKey` to `Val`; `admin.rs`, `balance.rs`,
  `control.rs`, `metadata.rs`, `contract.rs` and `validation.rs` hold the token
  logic over that map, each function with a contract; refusals come back as
  `TokenError` values and leave the ledger as it was.
- `app/` is the Soroban contract: it loads the entries an entry point needs
  from the host's storage into a `Ledger`, runs the library, writes the
  entries back, requires authorization, publishes events, and turns a
  `TokenError` into the transaction's failure message.
- `tests/` runs the library on concrete ledgers.
