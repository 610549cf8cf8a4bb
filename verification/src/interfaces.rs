//! Interfaces for the server and client: the data each transport kind
//! carries and its configuration checks. The transports themselves (HTTP
//! listener and client, named pipe reader and writer) live outside the
//! library and are configured from these values.

pub mod http;
pub mod pipe;

use vstd::prelude::*;

verus! {

/// The concrete interface kinds a server or client can use.
#[derive(Debug)]
pub enum InterfaceKind {
    Http(http::HttpSocketInterface),
    Pipe(pipe::PipeInterface),
}

} // verus!
