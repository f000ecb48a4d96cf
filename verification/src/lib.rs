//! A minimal peer rendezvous protocol.
//!
//! Named nodes join a shared broadcast channel (the "formation"). The first
//! node to bind the formation address becomes the broker: it keeps a
//! directory mapping peer names to addresses and resolves pairing requests.
//! Every other node connects as a peer, announces itself with a `Hail`, and
//! may ask to be introduced to another peer with a `Pair`. The broker answers
//! with a `Link` (carrying a reachable address) or a `Fail`, and the two
//! linked peers then exchange a `Data` payload over a transient direct
//! channel.
//!
//! This crate holds the protocol logic itself: the message types with their
//! wire codec, the broker's directory, and the role-dependent dispatch state
//! machine. The socket transport that carries the encoded frames lives
//! outside the library and hands it plain strings.

use vstd::prelude::*;

pub mod codec;
pub mod directory;
pub mod node;
pub mod message;
