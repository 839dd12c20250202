# rustrtc

The decisions of a WebRTC / SIP media endpoint, as verified Rust.

A `PeerConnection` holds the state of one connection: its descriptions, its transceivers, its
transports by number. It owns no socket. Every method takes what the outside knows (resolved hosts,
local candidates, the time), changes the state and appends to a list of `Action`s what the outside
has to do. Contracts say exactly what changes and what is asked for; proof functions state what
holds across calls.

- `src/connection.rs` and `src/connection/`: the connection, the offer/answer exchange, the
  transports, the life cycle, gathering, data channels, observers, fax, the identifiers of
  transceivers
- `src/describe.rs`, `src/capability.rs`, `src/sdes.rs`, `src/apt.rs`, `src/order.rs`, `src/lines.rs`:
  writing descriptions
- `src/remote.rs`, `src/local.rs`, `src/negotiate.rs`, `src/matching.rs`, `src/codec.rs`,
  `src/stream.rs`, `src/address.rs`, `src/signaling.rs`: applying descriptions
- `src/transceiver.rs`, `src/sender.rs`, `src/receiver.rs`, `src/nack.rs`, `src/rtx.rs`,
  `src/rtp.rs`: media
- `src/sdp.rs`, `src/config.rs`, `src/state.rs`, `src/direction.rs`, `src/error.rs`,
  `src/action.rs`, `src/registry.rs`, `src/search.rs`, `src/text.rs`, `src/ident.rs`: data and
  helpers
- `src/outside.rs`: base64 and random numbers, whose contracts are trusted
- `app/`: runs connections on tokio, over a `Network` that has the sockets
