# dca

The decision logic of a dollar-cost-averaging vault contract for CosmWasm chains,
written in Verus: every handler is a function from the stored state and a message
(with what the chain reported: balances, prices, reply outcomes) to the new state and
a response, and its contract states the result.

- `src/` — the verified library.
  - `types.rs`, `math.rs`, `text.rs`, `debug_text.rs`, `error.rs`: the data model,
    fixed-point amounts, the texts the contract reports (its `{:?}` texts among them),
    and its errors.
  - `state.rs`: the stored state, its invariant, and lookups.
  - `validation.rs`, `fees.rs`, `disbursement.rs`, `schedule.rs`,
    `dca_configuration.rs`: the rules that handlers share.
  - `pricing.rs`: the pools a swap passes along a pair's route, and the price it is
    expected at.
  - `handlers/`: one function per message, query and reply.
  - `laws.rs`: properties that span handlers, proved.
- `tests/` — tests of the library on concrete values.
- `app/` — the CosmWasm entry points: storage, chain queries, message encoding.
