//! A notification relay core: messages are tagged with a notification name,
//! authenticated with a keyed BLAKE3 hash, carried as JSON frames, and fanned
//! out on the receiving side to the endpoints whose key sets they match.
//!
//! The crate holds the verified routing core shared by the sending client and
//! the receiving server: the key derivation and validation protocol, the wire
//! codec, the dispatch decisions, the shutdown lifecycle, and configuration
//! validation. Transport and endpoint I/O live outside the library and talk
//! to it through plain values.

pub mod client;
pub mod codec;
pub mod configuration;
pub mod endpoints;
pub mod error;
pub mod interfaces;
pub mod notifications;
pub mod server;
pub mod shutdown;
pub mod text;

pub use configuration::ClientConfiguration;
pub use configuration::ServerConfiguration;
pub use error::Error;
