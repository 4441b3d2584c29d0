# p2p_chat

A two-peer chat over UDP. Peers meet on a Pusher presence channel, learn
their public endpoints with a STUN binding request, publish them to each
other, and then exchange one-byte-tagged datagrams.

- `src/` is the verified library (Verus):
  - `message` — the datagram format, with encode/decode round-trip proofs;
  - `client` — the session's sending and receiving decisions, with the proof
    that a session reports its connection at most once and stays connected;
  - `stun` — the binding request and the reading of its response;
  - `text` — decimal numbers, endpoints, and trimming event data;
  - `pusher_interaction`, `pusher_test` — presence-channel subscription
    requests (HMAC-SHA256 signatures) and the reaction to channel frames,
    whose JSON is read through serde_json.
- `app/` is the program: sockets, the Pusher REST client, the websocket,
  rendering requests as JSON, standard input and output.
- `tests/` runs the library on concrete values.
