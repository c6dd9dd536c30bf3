# tinydancer

A light client for Solana that samples shreds of each new slot, checks the
stake that voted on slots, verifies vote signatures of trusted validators and
keeps a gossip table of signed values. The logic is written in Verus and
proved against its contracts; the program around it (network, terminal,
storage) is ordinary Rust.

## Layout

- `src/` — the verified library:
  - `gossip/` — the replicated data store (`crds`), its values and labels,
    ping/pong, the gossip messages, their wire encoding and reading them
    back;
  - `sampler` — choosing shred indices, reading the answers, tallying what
    came back, archive keys;
  - `transaction_service` — checking vote transactions against the trusted
    validator set;
  - `consensus` — the stake that voted on a slot;
  - `json_rpc` — the text of the JSON-RPC requests and the subscription
    address of an RPC node;
  - `rpc_wrapper` — the relay's identity, batching of relayed
    transactions, and sending them again until they are confirmed;
  - `tinydancer`, `cli`, `stats`, `ui`, `ui_text` — configuration, client
    status, figures and the monitor's state and text;
  - `primitives`, `wire`, `wire_read`, `random` — keys, signatures, hashes,
    encoding and decoding helpers, and the calls into `solana-sdk` and
    `rand` they rest on;
  - `basic_client` — the minimal client's endpoints and sampler.
- `tests/` — tests of the library, run against the real outside crates.
- `app/` — the command line, the services (RPC, WebSocket, UDP, RocksDB,
  `solana_ledger` shreds) and the terminal monitor.

Every call into an outside crate from `src/` goes through a small trusted
function whose doc comment states what is assumed of it.
