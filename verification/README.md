# swa_moola

The verified core of Swa Moola, an end-to-end encrypted chat service, written in Verus.

Messages are sealed once under a random master key; each reader gets an envelope that wraps
that key under a hybrid secret (X25519 and ML-KEM-768, combined with SHA-256). Attachments are
sealed with their own keys and travel as metadata inside the message.

Layout:

- `src/` — the library, every function verified against its contract:
  - `primitives` — the trusted calls into the cryptography, encoding, hashing, token and UUID crates;
  - `hybrid` — sealing messages for several readers and opening them by trying envelopes in order;
  - `identity` — key pairs, and reading saved or published keys back;
  - `files`, `media` — sealing attachments, reading downloads back, choosing a viewer;
  - `accounts`, `auth` — registration, login, discoverable keys, session tokens, the request guard;
  - `messaging` — the server's handling of a send request and of direct and group conversations;
  - `chat_client` — the client's decisions: composing, routes, inbox, group picking, recorder;
  - `signaling` — call signals, the switchboard that routes them, caller and callee reactions;
  - `paths`, `audio`, `text`, `bytes` — file names and URLs, the WAV header, text and byte helpers.
- `tests/` — tests on concrete values, run against the real outside crates.
- `app/` — the HTTP and WebSocket server (axum, sqlx, tokio) that drives the library.
