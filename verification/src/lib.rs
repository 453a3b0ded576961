//! A proof-of-work gate for a request/response service over a byte stream.
//!
//! A client asks for a challenge under a token of its own choosing and the
//! server answers with a fresh secret. The client searches for a nonce whose
//! work hash, a double SHA-256 over secret and nonce, starts with enough
//! zero bytes, and submits it under the same token. The server releases a
//! quote for the first nonce that proves work for the secret, and for that
//! one only.
//!
//! The modules, from the wire upwards: `bytes` writes integers as bytes,
//! `protocol` frames payloads on a stream, `encode` and `message` say which
//! payload stands for which message, `crypto` holds the work function,
//! `session` the secrets that are still open, `word_of_wisdom` the quotes,
//! and `server` and `client` the two sides of an exchange; `exchange`
//! states what the two sides make of each other.
//!
//! Nothing here reads or writes a stream. Both sides are driven from
//! outside: a `Connection` and a `Client` say by their state what is to be
//! done next, and take in what came of it.

use vstd::prelude::*;

pub mod bytes;
pub mod client;
pub mod crypto;
pub mod encode;
pub mod error;
pub mod exchange;
pub mod message;
pub mod protocol;
pub mod random;
pub mod server;
pub mod session;
pub mod word_of_wisdom;

pub use crate::client::Client;
pub use crate::crypto::Difficulty;
pub use crate::crypto::Secret;
pub use crate::crypto::POW;
pub use crate::encode::Serializer;
pub use crate::encode::Wire;
pub use crate::error::ErrorKind;
pub use crate::message::Request;
pub use crate::message::Response;
pub use crate::message::WordOfWisdom;
pub use crate::protocol::Protocol;
pub use crate::server::Connection;
pub use crate::session::SessionStore;

verus! {

/// The address at which the server listens and the client calls.
pub const SERVER_SOCKET_ADDRESS: &'static str = "127.0.0.1:80";

} // verus!
