//! Email endpoint: sends each validated message's text as a plain-text
//! message over SMTP. The SMTP session lives outside the library; held here
//! are the endpoint's configuration data, its validation, and its key
//! generation.

use crate::endpoints::{
    clone_strings, derived_keys, generate_key_vec, named_key_sets_view, NamedKeySet,
    NamedKeySetView,
};
use crate::error::Error;
use crate::notifications::Key;
use vstd::prelude::*;

verus! {

/// Mathematical content of an [`EmailEndpoint`].
pub ghost struct EmailEndpointView {
    pub hostname: Seq<char>,
    pub port: u16,
    pub username: Seq<char>,
    pub password: Seq<char>,
    pub implicit_tls: bool,
    pub allow_invalid_certs: bool,
    pub from: Seq<char>,
    pub to: Seq<Seq<char>>,
    pub subject: Seq<char>,
    pub notifications: Seq<Seq<char>>,
}

/// Configuration data for the email endpoint.
pub struct EmailConfigFile {
    pub hostname: String,
    pub port: i64,
    pub username: String,
    pub password: String,
    pub implicit_tls: bool,
    pub allow_invalid_certs: bool,
    pub from: String,
    pub to: Vec<String>,
    pub subject: String,
    pub notifications: Vec<String>,
}

/// Data structure to represent the email endpoint.
#[derive(Debug, Clone)]
pub struct EmailEndpoint {
    hostname: String,
    port: u16,
    username: String,
    password: String,
    implicit_tls: bool,
    allow_invalid_certs: bool,
    from: String,
    to: Vec<String>,
    subject: String,
    notifications: Vec<String>,
}

impl View for EmailEndpoint {
    type V = EmailEndpointView;

    closed spec fn view(&self) -> EmailEndpointView {
        EmailEndpointView {
            hostname: self.hostname@,
            port: self.port,
            username: self.username@,
            password: self.password@,
            implicit_tls: self.implicit_tls,
            allow_invalid_certs: self.allow_invalid_certs,
            from: self.from@,
            to: self.to.deep_view(),
            subject: self.subject@,
            notifications: self.notifications.deep_view(),
        }
    }
}

impl EmailEndpoint {
    /// The SMTP host name.
    pub fn hostname(&self) -> (r: &str)
        ensures
            r@ == self@.hostname,
    {
        self.hostname.as_str()
    }

    /// The SMTP port.
    pub fn port(&self) -> (r: u16)
        ensures
            r == self@.port,
    {
        self.port
    }

    /// The SMTP user name.
    pub fn username(&self) -> (r: &str)
        ensures
            r@ == self@.username,
    {
        self.username.as_str()
    }

    /// The SMTP password.
    pub fn password(&self) -> (r: &str)
        ensures
            r@ == self@.password,
    {
        self.password.as_str()
    }

    /// Whether the connection uses implicit TLS.
    pub fn implicit_tls(&self) -> (r: bool)
        ensures
            r == self@.implicit_tls,
    {
        self.implicit_tls
    }

    /// Whether invalid certificates are tolerated.
    pub fn allow_invalid_certs(&self) -> (r: bool)
        ensures
            r == self@.allow_invalid_certs,
    {
        self.allow_invalid_certs
    }

    /// The sender address.
    pub fn from(&self) -> (r: &str)
        ensures
            r@ == self@.from,
    {
        self.from.as_str()
    }

    /// The recipient addresses.
    pub fn to(&self) -> (r: &[String])
        ensures
            r.deep_view() == self@.to,
    {
        self.to.as_slice()
    }

    /// The subject line used for every message.
    pub fn subject(&self) -> (r: &str)
        ensures
            r@ == self@.subject,
    {
        self.subject.as_str()
    }

    /// Return all associated notification names.
    pub fn notifications(&self) -> (r: &[String])
        ensures
            r.deep_view() == self@.notifications,
    {
        self.notifications.as_slice()
    }

    /// Build an `EmailEndpoint` from configuration data. The port must be
    /// a nonzero u16 value, and at least one recipient and one
    /// notification name must be given.
    pub fn from_config(value: &EmailConfigFile) -> (r: Result<EmailEndpoint, Error>)
        ensures
            match r {
                Ok(e) => {
                    &&& 0 < value.port < 65536
                    &&& value.to@.len() > 0
                    &&& value.notifications@.len() > 0
                    &&& e@ == (EmailEndpointView {
                        hostname: value.hostname@,
                        port: value.port as u16,
                        username: value.username@,
                        password: value.password@,
                        implicit_tls: value.implicit_tls,
                        allow_invalid_certs: value.allow_invalid_certs,
                        from: value.from@,
                        to: value.to.deep_view(),
                        subject: value.subject@,
                        notifications: value.notifications.deep_view(),
                    })
                },
                Err(e) => {
                    &&& !(0 < value.port < 65536 && value.to@.len() > 0
                        && value.notifications@.len() > 0)
                    &&& (if !(0 < value.port < 65536) {
                        e == Error::InvalidPortNumber(value.port)
                    } else if value.to@.len() == 0 {
                        e matches Error::InvalidEndpointConfiguration(m) && m@
                            == "Email configuration has no 'to' email address setup"@
                    } else {
                        e matches Error::InvalidEndpointConfiguration(m) && m@
                            == "Email configuration has no notifications setup"@
                    })
                },
            },
    {
        if !(value.port < 65536 && value.port > 0) {
            Err(Error::InvalidPortNumber(value.port))
        } else if value.to.is_empty() {
            Err(
                Error::InvalidEndpointConfiguration(
                    "Email configuration has no 'to' email address setup".to_owned(),
                ),
            )
        } else if value.notifications.is_empty() {
            Err(
                Error::InvalidEndpointConfiguration(
                    "Email configuration has no notifications setup".to_owned(),
                ),
            )
        } else {
            Ok(
                EmailEndpoint {
                    hostname: value.hostname.clone(),
                    port: value.port as u16,
                    username: value.username.clone(),
                    password: value.password.clone(),
                    implicit_tls: value.implicit_tls,
                    allow_invalid_certs: value.allow_invalid_certs,
                    from: value.from.clone(),
                    to: clone_strings(value.to.as_slice()),
                    subject: value.subject.clone(),
                    notifications: clone_strings(value.notifications.as_slice()),
                },
            )
        }
    }

    /// The single key set of this endpoint: every subscribed notification
    /// name, keyed under the empty sub-name.
    pub fn generate_keys(&self, hash_key: &Key) -> (r: Vec<NamedKeySet>)
        ensures
            named_key_sets_view(r@) == seq![
                NamedKeySetView {
                    sub_name: Seq::<char>::empty(),
                    keys: derived_keys(hash_key@, self@.notifications),
                },
            ],
    {
        let keys = generate_key_vec(&self.notifications, hash_key);
        let mut out: Vec<NamedKeySet> = Vec::new();
        out.push(NamedKeySet::new("", keys));
        proof {
            reveal_strlit("");
            assert(""@ =~= Seq::<char>::empty());
            assert(named_key_sets_view(out@) =~= seq![
                NamedKeySetView {
                    sub_name: Seq::<char>::empty(),
                    keys: derived_keys(hash_key@, self@.notifications),
                },
            ]);
        }
        out
    }
}

} // verus!
