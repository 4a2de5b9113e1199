# nostr_bunker

Signing logic for a Nostr bunker that acts for NEAR accounts, written in Verus.

- `src/` is the verified library: Base64 (`base64`), SHA-256 and lowercase hex
  (`digest`), JSON text for strings and tag lists (`json`) and its reading back
  (`json_read`), NIP-01 event
  serialisation and identifiers (`event`), a keyed store (`store`), session
  records (`session`), the clock (`clock`), and the three request handlers:
  the MPC worker (`worker`), its session-enabled variant (`sessions`) and the
  standalone bunker (`bunker`).
- `app/` reads requests from stdin, talks to NEAR RPC, and writes JSON
  responses; `app/main.rs worker|sessions|bunker` picks the handler.
- `tests/` runs the library on concrete inputs.
