# signaling

A WebSocket signalling server for WebRTC peers, with its logic verified by Verus.

Peers connect over WebSocket and send JSON requests: `cmd` with the content
`peers` lists the other connected peers; `sdp` and `candidate` pass a session
description or an ICE candidate on to a target peer, tagged with the sender's
identifier. The library also holds a small JSON-RPC 2.0 dispatcher and the
registries of peers and channels.

Layout:

- `src/text.rs`: string equality and the code-point order of strings.
- `src/strmap.rs`: `StrMap`, a map from strings kept in string order.
- `src/json.rs`: `JsonValue` and its view; reading and writing JSON text goes
  through `rustc_serialize`.
- `src/objectid.rs`: twelve-byte identifiers and their hexadecimal text,
  through `bson`.
- `src/message.rs`: requests, responses, and how the server routes them.
- `src/server.rs`: the answer to one WebSocket message.
- `src/jsonrpc.rs`: JSON-RPC requests, responses and dispatch.
- `src/peer.rs`, `src/channel.rs`: peers and channels, each kept under the text
  of its identifier.
- `app/main.rs`: the WebSocket server itself (`ws`), which holds the
  connections and sends what the library decides.
