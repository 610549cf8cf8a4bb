//! HTTP interface: the server side listens for one notification object per
//! POST body; the client side posts each notification's JSON to its peer.
//! Listening and sending live outside the library; held here are the
//! interface's configuration data and its validation.

use crate::error::Error;
use crate::text::{append_str, str_eq};
use vstd::prelude::*;
use vstd::string::StrSliceExecFns;

verus! {

/// The host with its scheme forced to agree with the `tls` flag: any
/// leading `http://` or `https://` is dropped, and the scheme that `tls`
/// implies is put in front.
pub open spec fn canonical_host(host: Seq<char>, tls: bool) -> Seq<char> {
    let rest = if host.len() >= 8 && host.subrange(0, 8) == "https://"@ {
        host.skip(8)
    } else if host.len() >= 7 && host.subrange(0, 7) == "http://"@ {
        host.skip(7)
    } else {
        host
    };
    (if tls {
        "https://"@
    } else {
        "http://"@
    }) + rest
}

/// Rewrite a host so that its scheme agrees with the `tls` flag.
fn canonicalize_host(host: &str, tls: bool) -> (r: String)
    ensures
        r@ == canonical_host(host@, tls),
{
    let n = host.unicode_len();
    let mut out = String::new();
    if tls {
        append_str(&mut out, "https://");
    } else {
        append_str(&mut out, "http://");
    }
    let start: usize = if n >= 8 && str_eq(host.substring_char(0, 8), "https://") {
        8
    } else if n >= 7 && str_eq(host.substring_char(0, 7), "http://") {
        7
    } else {
        0
    };
    let rest = host.substring_char(start, n);
    append_str(&mut out, rest);
    proof {
        if n >= 8 {
            assert(host@.subrange(8, n as int) =~= host@.skip(8));
        }
        if n >= 7 {
            assert(host@.subrange(7, n as int) =~= host@.skip(7));
        }
        assert(host@.subrange(0, n as int) =~= host@);
        assert(out@ =~= canonical_host(host@, tls));
    }
    out
}

/// Mathematical content of an [`HttpSocketInterface`].
pub ghost struct HttpSocketInterfaceView {
    pub host: Seq<char>,
    pub tls: bool,
    pub port: u16,
    pub tls_cert_path: Option<Seq<char>>,
    pub tls_key_path: Option<Seq<char>>,
}

/// Configuration data for the HTTP interface.
pub struct HttpSocketConfigFile {
    pub host: String,
    pub tls: bool,
    pub port: i64,
    pub tls_cert_path: Option<String>,
    pub tls_key_path: Option<String>,
}

/// Data structure to represent the HTTP socket interface.
#[derive(Debug, Clone)]
pub struct HttpSocketInterface {
    host: String,
    tls: bool,
    port: u16,
    tls_cert_path: Option<String>,
    tls_key_path: Option<String>,
}

impl View for HttpSocketInterface {
    type V = HttpSocketInterfaceView;

    closed spec fn view(&self) -> HttpSocketInterfaceView {
        HttpSocketInterfaceView {
            host: self.host@,
            tls: self.tls,
            port: self.port,
            tls_cert_path: match &self.tls_cert_path {
                Some(p) => Some(p@),
                None => None,
            },
            tls_key_path: match &self.tls_key_path {
                Some(p) => Some(p@),
                None => None,
            },
        }
    }
}

impl HttpSocketInterface {
    /// Create a new `HttpSocketInterface`. The stored host carries the
    /// scheme that the `tls` flag implies.
    pub fn new(
        host: &str,
        port: u16,
        tls: bool,
        cert_path: Option<String>,
        key_path: Option<String>,
    ) -> (r: Self)
        ensures
            r@.host == canonical_host(host@, tls),
            r@.port == port,
            r@.tls == tls,
            r@.tls_cert_path == (match cert_path {
                Some(p) => Some(p@),
                None => None::<Seq<char>>,
            }),
            r@.tls_key_path == (match key_path {
                Some(p) => Some(p@),
                None => None::<Seq<char>>,
            }),
    {
        HttpSocketInterface {
            host: canonicalize_host(host, tls),
            tls,
            port,
            tls_cert_path: cert_path,
            tls_key_path: key_path,
        }
    }

    /// Return the host address.
    pub fn host(&self) -> (r: &str)
        ensures
            r@ == self@.host,
    {
        self.host.as_str()
    }

    /// Return the port.
    pub fn port(&self) -> (r: u16)
        ensures
            r == self@.port,
    {
        self.port
    }

    /// Return whether the interface should use TLS.
    pub fn tls(&self) -> (r: bool)
        ensures
            r == self@.tls,
    {
        self.tls
    }

    /// Return the path to the TLS certificate.
    pub fn tls_cert_path(&self) -> (r: &Option<String>)
        ensures
            self@.tls_cert_path == (match r {
                Some(p) => Some(p@),
                None => None::<Seq<char>>,
            }),
    {
        &self.tls_cert_path
    }

    /// Return the path to the TLS private key.
    pub fn tls_key_path(&self) -> (r: &Option<String>)
        ensures
            self@.tls_key_path == (match r {
                Some(p) => Some(p@),
                None => None::<Seq<char>>,
            }),
    {
        &self.tls_key_path
    }

    /// Build an `HttpSocketInterface` from configuration data. The port
    /// must be a nonzero u16 value; the stored host carries the scheme
    /// that the `tls` option implies.
    pub fn from_config(value: &HttpSocketConfigFile) -> (r: Result<HttpSocketInterface, Error>)
        ensures
            match r {
                Ok(i) => {
                    &&& 0 < value.port < 65536
                    &&& i@.host == canonical_host(value.host@, value.tls)
                    &&& i@.tls == value.tls
                    &&& i@.port == value.port as u16
                    &&& i@.tls_cert_path == (match &value.tls_cert_path {
                        Some(p) => Some(p@),
                        None => None::<Seq<char>>,
                    })
                    &&& i@.tls_key_path == (match &value.tls_key_path {
                        Some(p) => Some(p@),
                        None => None::<Seq<char>>,
                    })
                },
                Err(e) => !(0 < value.port < 65536) && e == Error::InvalidPortNumber(value.port),
            },
    {
        if !(value.port < 65536 && value.port > 0) {
            Err(Error::InvalidPortNumber(value.port))
        } else {
            Ok(
                HttpSocketInterface {
                    host: canonicalize_host(value.host.as_str(), value.tls),
                    tls: value.tls,
                    port: value.port as u16,
                    tls_cert_path: match &value.tls_cert_path {
                        Some(p) => Some(p.clone()),
                        None => None,
                    },
                    tls_key_path: match &value.tls_key_path {
                        Some(p) => Some(p.clone()),
                        None => None,
                    },
                },
            )
        }
    }

    /// Check that a TLS listener has both certificate and key paths; a
    /// plain listener needs neither.
    pub fn check_receive_config(&self) -> (r: Result<(), Error>)
        ensures
            match r {
                Ok(()) => !(self@.tls && (self@.tls_cert_path is None || self@.tls_key_path
                    is None)),
                Err(e) => {
                    &&& self@.tls && (self@.tls_cert_path is None || self@.tls_key_path is None)
                    &&& (e matches Error::InvalidInterfaceConfiguration(m) && m@
                        == "Both tls_cert_path and tls_key_path must be provided for a TLS server"@)
                },
            },
    {
        if self.tls && (self.tls_cert_path.is_none() || self.tls_key_path.is_none()) {
            Err(
                Error::InvalidInterfaceConfiguration(
                    "Both tls_cert_path and tls_key_path must be provided for a TLS server".to_owned(),
                ),
            )
        } else {
            Ok(())
        }
    }
}

} // verus!
