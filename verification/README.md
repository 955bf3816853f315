# fedi3_core

The decision logic of a FEDI3 node — an ActivityPub server that runs on the
user's device and reaches the network through a relay or peer-to-peer —
written in Verus, with each public function's behaviour stated in its
contract and proved.

## Layout

- `src/` — the verified library. Each module holds one concern:
  - `json`, `canonjson`, `jsontext`: JSON values as the library models them,
    lookups, the canonical (key-sorted) form used for deduplication, and flat
    JSON objects read and written through `serde_json`.
  - `activity`, `inbox`, `report`, `content`: outbox checks, inbox dispatch,
    follow/undo/reaction plans, notifications and content filtering.
  - `httpsig`, `sigroundtrip`, `digest`: HTTP signatures (signing strings,
    `Signature` headers and their parsing, digests, dates), hashes and ids.
  - `relayenc`, `chat`, `identity`: the relay's end-to-end body encryption,
    the chat payload sealing, and the node's key pair and DID.
  - `queue`, `retry`, `limits`, `metrics`: delivery queue planning, retry and
    backoff, rate limits, network counters.
  - `devicesync`, `legacysync`, `p2psync`, `discovery`, `p2pframe`, `actordoc`, `urls`:
    device and relay synchronisation, peer records, peer frames, actor and
    WebFinger documents, URL helpers.
  - `appconfig`, `startup`, `service`, `media`, `order`, `text`: configuration,
    start-up settings, the configuration watcher's state machine, media
    storage paths, ordering and text helpers.
- `tests/` — tests run against the compiled library with the real outside
  crates linked.
- `app/` — the program around the library: reading the configuration file,
  converting between `serde_json` documents and the library's values, and the
  watcher loop that the library's `service_step` drives.

Calls into outside crates (`rsa`, `aes-gcm`, `base64`, `sha2`, `hkdf`,
`httpdate`, `time`, `mime_guess`, `serde_json`, ...) stand behind small
trusted wrappers whose doc comments say what their contracts claim.
