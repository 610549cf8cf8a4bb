//! Server and client configuration: the master key and the configured
//! interfaces and endpoints, validated on construction.

use crate::endpoints::{endpoint_key_sets, named_key_sets_view, EndpointKind, NamedKeySet};
use crate::error::Error;
use crate::interfaces::InterfaceKind;
use crate::notifications::Key;
use vstd::prelude::*;
use vstd::string::StrSliceExecFns;
use vstd::utf8::encode_utf8;

verus! {

/// Check that a master key string is exactly 32 bytes long.
pub fn valid_key_length(key: &str) -> (r: Result<(), Error>)
    ensures
        match r {
            Ok(()) => encode_utf8(key@).len() == 32,
            Err(e) => encode_utf8(key@).len() != 32 && e == Error::InvalidKeyLength(
                encode_utf8(key@).len() as usize,
            ),
        },
{
    let bytes = key.as_bytes_vec();
    if bytes.len() == 32 {
        Ok(())
    } else {
        Err(Error::InvalidKeyLength(bytes.len()))
    }
}

/// The master [`Key`] built from a 32-byte key string.
fn master_key(key: &str) -> (r: Key)
    requires
        encode_utf8(key@).len() == 32,
    ensures
        r@ == encode_utf8(key@),
{
    let bytes = key.as_bytes_vec();
    let mut arr: [u8; 32] = [0; 32];
    let mut i: usize = 0;
    while i < 32
        invariant
            i <= 32,
            bytes@ == encode_utf8(key@),
            bytes@.len() == 32,
            forall|j: int| 0 <= j < i ==> arr@[j] == bytes@[j],
        decreases 32 - i,
    {
        arr[i] = bytes[i];
        i = i + 1;
    }
    assert(arr@ =~= bytes@);
    Key::from_bytes(&arr)
}

/// Mathematical content of a [`ServerConfiguration`].
pub ghost struct ServerConfigurationView {
    pub key: Seq<u8>,
    pub interfaces: Seq<InterfaceKind>,
    pub endpoints: Seq<EndpointKind>,
}

/// Server configuration that can be used to start the server.
#[derive(Debug)]
pub struct ServerConfiguration {
    key: Key,
    interfaces: Vec<InterfaceKind>,
    endpoints: Vec<EndpointKind>,
}

impl View for ServerConfiguration {
    type V = ServerConfigurationView;

    closed spec fn view(&self) -> ServerConfigurationView {
        ServerConfigurationView {
            key: self.key@,
            interfaces: self.interfaces@,
            endpoints: self.endpoints@,
        }
    }
}

impl ServerConfiguration {
    /// Create a new `ServerConfiguration`. At least one interface and one
    /// endpoint must be given, and the master key must be exactly 32 bytes.
    pub fn new(key: &str, interfaces: Vec<InterfaceKind>, endpoints: Vec<EndpointKind>) -> (r:
        Result<ServerConfiguration, Error>)
        ensures
            match r {
                Ok(c) => {
                    &&& interfaces@.len() > 0
                    &&& endpoints@.len() > 0
                    &&& encode_utf8(key@).len() == 32
                    &&& c@.key == encode_utf8(key@)
                    &&& c@.interfaces == interfaces@
                    &&& c@.endpoints == endpoints@
                },
                Err(e) => {
                    &&& (interfaces@.len() == 0 || endpoints@.len() == 0 || encode_utf8(
                        key@,
                    ).len() != 32)
                    &&& e == (if interfaces@.len() == 0 {
                        Error::MissingInterface
                    } else if endpoints@.len() == 0 {
                        Error::MissingEndpoint
                    } else {
                        Error::InvalidKeyLength(encode_utf8(key@).len() as usize)
                    })
                },
            },
    {
        if interfaces.is_empty() {
            Err(Error::MissingInterface)
        } else if endpoints.is_empty() {
            Err(Error::MissingEndpoint)
        } else {
            match valid_key_length(key) {
                Err(e) => Err(e),
                Ok(()) => Ok(
                    ServerConfiguration { key: master_key(key), interfaces, endpoints },
                ),
            }
        }
    }

    /// Return the server [`Key`] value.
    pub fn key(&self) -> (r: &Key)
        ensures
            r@ == self@.key,
    {
        &self.key
    }

    /// Return all server interfaces.
    pub fn interfaces(&self) -> (r: &Vec<InterfaceKind>)
        ensures
            r@ == self@.interfaces,
    {
        &self.interfaces
    }

    /// Return all server endpoints.
    pub fn endpoints(&self) -> (r: &Vec<EndpointKind>)
        ensures
            r@ == self@.endpoints,
    {
        &self.endpoints
    }

    /// The named key sets of each endpoint, in endpoint order, every key
    /// derived under the server key.
    pub fn endpoint_keys(&self) -> (r: Vec<Vec<NamedKeySet>>)
        ensures
            r@.len() == self@.endpoints.len(),
            forall|i: int|
                0 <= i < r@.len() ==> named_key_sets_view(#[trigger] r@[i]@) == endpoint_key_sets(
                    &self@.endpoints[i],
                    self@.key,
                ),
    {
        let mut out: Vec<Vec<NamedKeySet>> = Vec::new();
        let mut i: usize = 0;
        while i < self.endpoints.len()
            invariant
                i <= self.endpoints@.len(),
                out@.len() == i,
                forall|j: int|
                    0 <= j < i ==> named_key_sets_view(#[trigger] out@[j]@) == endpoint_key_sets(
                        &self@.endpoints[j],
                        self@.key,
                    ),
            decreases self.endpoints@.len() - i,
        {
            out.push(self.endpoints[i].generate_keys(&self.key));
            i = i + 1;
        }
        out
    }
}

/// Mathematical content of a [`ClientConfiguration`].
pub ghost struct ClientConfigurationView {
    pub key: Seq<u8>,
    pub interfaces: Seq<InterfaceKind>,
}

/// Client configuration that can be used to start the client.
#[derive(Debug)]
pub struct ClientConfiguration {
    key: Key,
    interfaces: Vec<InterfaceKind>,
}

impl View for ClientConfiguration {
    type V = ClientConfigurationView;

    closed spec fn view(&self) -> ClientConfigurationView {
        ClientConfigurationView { key: self.key@, interfaces: self.interfaces@ }
    }
}

impl ClientConfiguration {
    /// Create a new `ClientConfiguration`. At least one interface must be
    /// given, and the master key must be exactly 32 bytes.
    pub fn new(key: &str, interfaces: Vec<InterfaceKind>) -> (r: Result<
        ClientConfiguration,
        Error,
    >)
        ensures
            match r {
                Ok(c) => {
                    &&& interfaces@.len() > 0
                    &&& encode_utf8(key@).len() == 32
                    &&& c@.key == encode_utf8(key@)
                    &&& c@.interfaces == interfaces@
                },
                Err(e) => {
                    &&& (interfaces@.len() == 0 || encode_utf8(key@).len() != 32)
                    &&& e == (if interfaces@.len() == 0 {
                        Error::MissingInterface
                    } else {
                        Error::InvalidKeyLength(encode_utf8(key@).len() as usize)
                    })
                },
            },
    {
        if interfaces.is_empty() {
            Err(Error::MissingInterface)
        } else {
            match valid_key_length(key) {
                Err(e) => Err(e),
                Ok(()) => Ok(ClientConfiguration { key: master_key(key), interfaces }),
            }
        }
    }

    /// Return the client [`Key`] value.
    pub fn key(&self) -> (r: &Key)
        ensures
            r@ == self@.key,
    {
        &self.key
    }

    /// Return all client interfaces.
    pub fn interfaces(&self) -> (r: &Vec<InterfaceKind>)
        ensures
            r@ == self@.interfaces,
    {
        &self.interfaces
    }
}

} // verus!
