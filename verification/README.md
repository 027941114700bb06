# escrow

The rules of an escrow contract for the Stellar network, written in Verus.

A depositor puts funds into an escrow for a beneficiary. Escrows can depend on one
another: a child waits for its parent to have a certain status and is then
released by itself. In a commitment escrow the amount stays hidden behind a
SHA-256 commitment until it is revealed.

- `src/types.rs`: the records and the storage keys.
- `src/invocation.rs`: what a call may read, and the actions that it asks for.
- `src/model.rs`: what each call comes to, as spec functions.
- `src/contract.rs`: the calls, proved against the model.
- `src/commitment.rs`: commitments; the one call into `soroban_sdk`, for SHA-256.
- `src/laws/`: what holds of all calls, and of any history of calls.
- `app/lib.rs`: the contract's entry points on the network, which supply the facts
  that the calls ask for and perform their actions.
- `tests/`: the calls on a small network of their own.

The rules read nothing and write nothing themselves. A call that lacks a fact (a
storage entry, an authorization, a balance) says so and changes nothing; it is
made again once the fact has been supplied. A call that is decided has recorded
the writes, transfers and events to perform, in order.
