# flashblocks_rpc

The pending state of a chain whose blocks are streamed in flashblocks, as a verified library.

A flashblock is a part of a block that is not complete yet. The library takes flashblocks and
canonical blocks and keeps the blocks that are pending: their headers, transactions, receipts,
balances, transaction counts, logs and state overrides.

## Layout

- `src/` is the library. Every item of it is verified by Verus, but for the trusted
  items below.
  - `subscription` decides how the stream of flashblocks is subscribed to: connecting, backing
    off, and decoding what arrives.
  - `state` decides what each flashblock and each canonical block makes of what is pending, and
    `history` is about what a sequence of them leads to.
  - `grouping`, `block`, `payload` and `transaction` put blocks together from flashblocks.
  - `pending_state` builds a pending state, block by block and transaction by transaction.
  - `pending_blocks` is the pending state, and `snapshot` what an RPC reads from it.
  - `overrides`, `receipt`, `flashblock`, `primitives`, `map`, `metrics` and `error` are the types
    that these work on.
  - `laws` holds what is true of every pending state that was built. Laws about one module stand
    in that module, as proof functions whose names start with `law_`.
- `tests/` runs the library on concrete values.
- `app/` is ordinary Rust around the library: sockets and timers, the update queue, the metrics
  recorder, the JSON of the wire, and the execution of transactions in a node. Its `node` module
  needs the crates of a reth workspace.

## What is not proved

Calls into other crates stand behind functions whose doc comment starts with, or contains,
`Trusted:`. Each says what is believed of the function that it calls. The names for what such a
function returns (`decoded_transaction`, `recovered_signer`, `decoded_header`, `header_rlp`,
`keccak256_of`, `decompressed`) stand for its result without saying more, and `cached_accounts`
for the accounts that a database cache holds.
