# InvoiceLift

Invoice financing as verified state machines: an invoice registry whose amounts
are Pedersen commitments, lender pools, repayment routing with a circuit
breaker, and governance of pool parameters.

- `src/` is the library. Every contract is a struct that holds its whole stored
  state as plain values. Each call has an exact contract: the state it leaves
  and the answer it gives are those of a spec function on the state before it.
  - `pool_manager`, `repayment_waterfall`, `invoice_registry`, `governance`: the
    contracts; `nft` and `multisig`: invoice tokens and multi-party
    verification; `pedersen`: commitments over the field of `2^127 - 1`; `prime`:
    the proof that this number is prime.
  - `pool_laws`, `waterfall_laws`, `registry_laws`, `governance_laws`: what holds
    over any run of calls.
  - `ident`, `table`, `arith`: names and addresses, keyed tables, ranges.
- `app/` binds the library to Soroban: storage, authorization, events, ledger
  time and calls between contracts.
- `tests/` runs the library on concrete values.

Ledger time, the authorization that the ledger has checked, and what other
contracts report are arguments of the calls. Where arithmetic could leave the
range of `i128`, a `*_fits` function tells before the call.

The one trusted item is `ed25519_verify` in `multisig`, which calls
`ed25519_dalek`.
