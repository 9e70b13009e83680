# lifi_solana_programs

Verified core of LI.FI's Solana programs, written in Verus:

- `intent_factory_program`: the intent solver vault (`execute`, `refund`):
  instruction data parsing, account-header checks, the intent preimage and
  its hash, the vault PDA, the CPI block decoder with its signer/writable
  rules, and the post-CPI outcome checks.
- `intent_factory`: the stateful intent factory: the canonical header codec,
  the route's wire codec, the stored intent state, the account guards, and
  the `init_intent` / `execute_intent` / `refund_intent` decisions.
- `lifi_program_1`, `transaction_tracking`: the `TrackV1` instruction of the
  two tracking programs.
- `router`: the swap-and-bridge router and its Unit and Across adapters.
- `keys`, `addresses`, `outside`: account keys and well-known program ids, the
  associated token address, and the trusted declarations of the outside
  functions the logic calls (hashes, program-address search, token decoders).

Each instruction is split into decisions over account snapshots (in `src/`,
with contracts) and the runtime glue that performs CPIs and account writes
(in `app/`).
