# malachitebft

The decision core of a Byzantine fault tolerant consensus engine, verified with
Verus: vote tallying, the actors of the engine, peer discovery, the peer-to-peer
service and signing.

Every function of the library states what it returns and what it changes. Verus
proves it, but for the functions marked `external_body`: these call other crates,
and what they state of those is believed, not proved. What holds of the library
as a whole is stated in proof functions whose names begin with `law_`.

## Layout

- `src/votekeeper`: tallying of votes, thresholds and evidence of equivocation,
  for the classic protocol and for the fast one.
- `src/engine`: what the consensus, network, sync and node actors do for each
  message, the entries of the write-ahead log, and what failures lead to.
- `src/discovery`: which peers a node knows and how they are connected, and
  traces of discovery.
- `src/network`: the peer-to-peer service: its peers, persistent peers,
  validator proofs, limits on connections, metrics and configuration.
- `src/signing.rs`: Ed25519 keys and signatures.
- `tests`: tests of the compiled library.
- `app`: what joins the library to the peer-to-peer stack, to asynchronous
  streams and to the traits of other crates.

Actors and services are written as functions from a state and an event to the
next state and the work that follows; the work is carried out outside the
library.
