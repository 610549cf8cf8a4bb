//! Regular file endpoint: appends each validated message's text to a file.
//! The file I/O itself lives outside the library; what is held here is the
//! endpoint's configuration data, its validation, and its key generation.

use crate::endpoints::{
    clone_strings, derived_keys, generate_key_vec, named_key_sets_view, NamedKeySet,
    NamedKeySetView,
};
use crate::error::Error;
use crate::notifications::Key;
use vstd::prelude::*;
use vstd::string::StrSliceExecFns;
use vstd::utf8::encode_utf8;

verus! {

/// The bytes the file endpoint appends to its file for one delivered
/// message: the UTF-8 text followed by a single line feed.
pub fn file_line(text: &str) -> (r: Vec<u8>)
    ensures
        r@ == encode_utf8(text@) + seq![0x0au8],
{
    let mut line = text.as_bytes_vec();
    line.push(0x0a);
    assert(line@ =~= encode_utf8(text@) + seq![0x0au8]);
    line
}

/// Mathematical content of a [`FileEndpoint`].
pub ghost struct FileEndpointView {
    pub path: Seq<char>,
    pub notifications: Seq<Seq<char>>,
}

/// Configuration data for the regular file endpoint, as read from a
/// configuration file.
pub struct FileConfigFile {
    pub path: String,
    pub notifications: Vec<String>,
}

/// Data structure to represent the regular file endpoint.
#[derive(Debug, Clone)]
pub struct FileEndpoint {
    path: String,
    notifications: Vec<String>,
}

impl View for FileEndpoint {
    type V = FileEndpointView;

    closed spec fn view(&self) -> FileEndpointView {
        FileEndpointView { path: self.path@, notifications: self.notifications.deep_view() }
    }
}

impl FileEndpoint {
    /// Create a new `FileEndpoint`.
    pub fn new(path: &str, notifications: &[String]) -> (r: Self)
        ensures
            r@.path == path@,
            r@.notifications == notifications.deep_view(),
    {
        FileEndpoint { path: path.to_owned(), notifications: clone_strings(notifications) }
    }

    /// Return the file path.
    pub fn path(&self) -> (r: &str)
        ensures
            r@ == self@.path,
    {
        self.path.as_str()
    }

    /// Return all associated notification names.
    pub fn notifications(&self) -> (r: &[String])
        ensures
            r.deep_view() == self@.notifications,
    {
        self.notifications.as_slice()
    }

    /// Build a `FileEndpoint` from configuration data, rejecting a blank
    /// path and an empty notification list.
    pub fn from_config(value: &FileConfigFile) -> (r: Result<FileEndpoint, Error>)
        ensures
            match r {
                Ok(e) => value.path@.len() > 0 && value.notifications@.len() > 0 && e@.path
                    == value.path@ && e@.notifications == value.notifications.deep_view(),
                Err(e) => {
                    &&& (value.path@.len() == 0 || value.notifications@.len() == 0)
                    &&& (e matches Error::InvalidEndpointConfiguration(m) && (if value.path@.len()
                        == 0 {
                        m@ == "File configuration path is blank"@
                    } else {
                        m@ == "File configuration has no notifications setup"@
                    }))
                },
            },
    {
        if value.path.as_str().is_empty() {
            Err(
                Error::InvalidEndpointConfiguration(
                    "File configuration path is blank".to_owned(),
                ),
            )
        } else if value.notifications.is_empty() {
            Err(
                Error::InvalidEndpointConfiguration(
                    "File configuration has no notifications setup".to_owned(),
                ),
            )
        } else {
            Ok(FileEndpoint::new(value.path.as_str(), value.notifications.as_slice()))
        }
    }

    /// The single key set of this endpoint: every subscribed notification
    /// name, keyed under the empty sub-name.
    pub fn generate_keys(&self, hash_key: &Key) -> (r: Vec<NamedKeySet>)
        ensures
            named_key_sets_view(r@) == seq![
                NamedKeySetView {
                    sub_name: Seq::<char>::empty(),
                    keys: derived_keys(hash_key@, self@.notifications),
                },
            ],
    {
        let keys = generate_key_vec(&self.notifications, hash_key);
        let mut out: Vec<NamedKeySet> = Vec::new();
        out.push(NamedKeySet::new("", keys));
        proof {
            reveal_strlit("");
            assert(""@ =~= Seq::<char>::empty());
            assert(named_key_sets_view(out@) =~= seq![
                NamedKeySetView {
                    sub_name: Seq::<char>::empty(),
                    keys: derived_keys(hash_key@, self@.notifications),
                },
            ]);
        }
        out
    }
}

} // verus!
