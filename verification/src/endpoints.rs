//! Endpoints for the server: the data each endpoint kind carries, its
//! configuration checks, and the key sets against which incoming
//! notifications are validated.

pub mod discord;
pub mod email;
pub mod file;
pub mod matrix;

use crate::notifications::{derived_key, Key};
use vstd::prelude::*;

verus! {

/// Mathematical content of a [`NamedKeySet`]: the sub-name and the bytes of
/// each key.
pub ghost struct NamedKeySetView {
    pub sub_name: Seq<char>,
    pub keys: Seq<Seq<u8>>,
}

/// One sub-name of an endpoint together with the set of notification-name
/// keys subscribed under it. File, Discord and email endpoints use a single
/// set under the empty sub-name; the Matrix endpoint uses one set per room.
pub struct NamedKeySet {
    sub_name: String,
    keys: Vec<Key>,
}

impl View for NamedKeySet {
    type V = NamedKeySetView;

    closed spec fn view(&self) -> NamedKeySetView {
        NamedKeySetView { sub_name: self.sub_name@, keys: keys_view(self.keys@) }
    }
}

/// The byte strings of a sequence of keys.
pub open spec fn keys_view(ks: Seq<Key>) -> Seq<Seq<u8>> {
    ks.map_values(|k: Key| k@)
}

/// The views of a sequence of named key sets.
pub open spec fn named_key_sets_view(ss: Seq<NamedKeySet>) -> Seq<NamedKeySetView> {
    ss.map_values(|s: NamedKeySet| s@)
}

/// The keys derived for each of the given names under a parent key.
pub open spec fn derived_keys(parent: Seq<u8>, names: Seq<Seq<char>>) -> Seq<Seq<u8>> {
    names.map_values(|nm: Seq<char>| derived_key(parent, nm))
}

impl NamedKeySet {
    /// Create a named key set.
    pub fn new(sub_name: &str, keys: Vec<Key>) -> (r: NamedKeySet)
        ensures
            r@.sub_name == sub_name@,
            r@.keys == keys_view(keys@),
    {
        NamedKeySet { sub_name: sub_name.to_owned(), keys }
    }

    /// The sub-name this key set belongs to.
    pub fn sub_name(&self) -> (r: &str)
        ensures
            r@ == self@.sub_name,
    {
        self.sub_name.as_str()
    }

    /// The keys of this set.
    pub fn keys(&self) -> (r: &Vec<Key>)
        ensures
            keys_view(r@) == self@.keys,
    {
        &self.keys
    }
}

/// Clone a slice of strings into an owned vector.
pub(crate) fn clone_strings(src: &[String]) -> (r: Vec<String>)
    ensures
        r.deep_view() == src.deep_view(),
{
    let mut out: Vec<String> = Vec::new();
    let mut i: usize = 0;
    while i < src.len()
        invariant
            i <= src@.len(),
            out@.len() == i,
            out.deep_view() == src.deep_view().take(i as int),
        decreases src@.len() - i,
    {
        let ghost prev = out.deep_view();
        out.push(src[i].clone());
        proof {
            assert forall|k: int|
                0 <= k < i + 1 implies #[trigger] out.deep_view()[k] == src.deep_view()[k] by {
                if k < i {
                    assert(out.deep_view()[k] == prev[k]);
                    assert(prev[k] == src.deep_view().take(i as int)[k]);
                } else {
                    assert(out.deep_view()[k] == out@[i as int].deep_view());
                    assert(out@[i as int] == src@[i as int]);
                }
            }
            assert(out.deep_view() =~= src.deep_view().take(i as int + 1));
        }
        i = i + 1;
    }
    assert(src.deep_view().take(src@.len() as int) =~~= src.deep_view());
    out
}

/// Derive the key of each named notification under `hash_key`.
pub(crate) fn generate_key_vec(notifications: &Vec<String>, hash_key: &Key) -> (r: Vec<Key>)
    ensures
        keys_view(r@) == derived_keys(hash_key@, notifications.deep_view()),
{
    let mut out: Vec<Key> = Vec::new();
    let mut i: usize = 0;
    while i < notifications.len()
        invariant
            i <= notifications@.len(),
            out@.len() == i,
            keys_view(out@) == derived_keys(hash_key@, notifications.deep_view()).take(i as int),
        decreases notifications@.len() - i,
    {
        out.push(Key::generate(notifications[i].as_str(), hash_key));
        assert(keys_view(out@) =~~= derived_keys(hash_key@, notifications.deep_view()).take(
            i as int + 1,
        ));
        i = i + 1;
    }
    assert(derived_keys(hash_key@, notifications.deep_view()).take(notifications@.len() as int)
        =~~= derived_keys(hash_key@, notifications.deep_view()));
    out
}

/// The concrete endpoint kinds a server can egress to.
#[derive(Debug)]
pub enum EndpointKind {
    File(file::FileEndpoint),
    Discord(discord::DiscordEndpoint),
    Email(email::EmailEndpoint),
    Matrix(matrix::MatrixEndpoint),
}

impl EndpointKind {
    /// The named key sets this endpoint subscribes to, each key derived for
    /// a notification name under `hash_key`.
    pub fn generate_keys(&self, hash_key: &Key) -> (r: Vec<NamedKeySet>)
        ensures
            named_key_sets_view(r@) == endpoint_key_sets(self, hash_key@),
    {
        match self {
            EndpointKind::File(e) => e.generate_keys(hash_key),
            EndpointKind::Discord(e) => e.generate_keys(hash_key),
            EndpointKind::Email(e) => e.generate_keys(hash_key),
            EndpointKind::Matrix(e) => e.generate_keys(hash_key),
        }
    }
}

/// The named key sets an endpoint subscribes to, at the spec level.
pub open spec fn endpoint_key_sets(e: &EndpointKind, parent: Seq<u8>) -> Seq<NamedKeySetView> {
    match e {
        EndpointKind::File(f) => seq![
            NamedKeySetView {
                sub_name: Seq::<char>::empty(),
                keys: derived_keys(parent, f@.notifications),
            },
        ],
        EndpointKind::Discord(d) => seq![
            NamedKeySetView {
                sub_name: Seq::<char>::empty(),
                keys: derived_keys(parent, d@.notifications),
            },
        ],
        EndpointKind::Email(m) => seq![
            NamedKeySetView {
                sub_name: Seq::<char>::empty(),
                keys: derived_keys(parent, m@.notifications),
            },
        ],
        EndpointKind::Matrix(m) => m@.rooms.map_values(
            |r: matrix::MatrixRoomView|
                NamedKeySetView {
                    sub_name: r.room,
                    keys: derived_keys(parent, r.notifications),
                },
        ),
    }
}

} // verus!
