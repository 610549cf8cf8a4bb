//! Matrix endpoint: sends each validated message's text to the Matrix room
//! named by its sub-name. Session handling and the Matrix protocol live
//! outside the library; held here are the endpoint's configuration data,
//! its validation, the room-identifier canonicalization, and its per-room
//! key generation.

use crate::codec::{is_json_ws, skip_ws};
use crate::endpoints::{
    derived_keys, generate_key_vec, named_key_sets_view, NamedKeySet, NamedKeySetView,
};
use crate::error::Error;
use crate::notifications::Key;
use crate::text::{append_str, push_char, str_eq};
use vstd::prelude::*;
use vstd::string::StrSliceExecFns;

verus! {

/// Mathematical content of a [`MatrixRoom`].
pub ghost struct MatrixRoomView {
    pub room: Seq<char>,
    pub notifications: Seq<Seq<char>>,
}

/// Data structure to represent a Matrix room with the notification names
/// routed to it.
#[derive(Debug, Clone)]
pub struct MatrixRoom {
    room: String,
    notifications: Vec<String>,
}

impl View for MatrixRoom {
    type V = MatrixRoomView;

    closed spec fn view(&self) -> MatrixRoomView {
        MatrixRoomView { room: self.room@, notifications: self.notifications.deep_view() }
    }
}

impl MatrixRoom {
    /// Create a new `MatrixRoom`.
    pub fn new(room: String, notifications: Vec<String>) -> (r: Self)
        ensures
            r@.room == room@,
            r@.notifications == notifications.deep_view(),
    {
        MatrixRoom { room, notifications }
    }

    /// Return the Matrix room name.
    pub fn room(&self) -> (r: &str)
        ensures
            r@ == self@.room,
    {
        self.room.as_str()
    }

    /// Return the notification names associated with this room.
    pub fn notifications(&self) -> (r: &[String])
        ensures
            r.deep_view() == self@.notifications,
    {
        self.notifications.as_slice()
    }
}

/// Mathematical content of a [`MatrixEndpoint`].
pub ghost struct MatrixEndpointView {
    pub home_server: Seq<char>,
    pub username: Seq<char>,
    pub password: Seq<char>,
    pub session_store_path: Seq<char>,
    pub session_store_password: Seq<char>,
    pub rooms: Seq<MatrixRoomView>,
}

/// One room entry of the Matrix configuration data.
pub struct MatrixRoomConfigFile {
    pub room: String,
    pub notifications: Vec<String>,
}

/// Configuration data for the Matrix endpoint.
pub struct MatrixConfigFile {
    pub home_server: String,
    pub username: String,
    pub password: String,
    pub session_store_path: String,
    pub session_store_password: String,
    pub room: Vec<MatrixRoomConfigFile>,
}

/// Mathematical content of a [`MatrixRoomConfigFile`].
pub ghost struct MatrixRoomConfigView {
    pub room: Seq<char>,
    pub notifications: Seq<Seq<char>>,
}

impl View for MatrixRoomConfigFile {
    type V = MatrixRoomConfigView;

    open spec fn view(&self) -> MatrixRoomConfigView {
        MatrixRoomConfigView { room: self.room@, notifications: self.notifications.deep_view() }
    }
}

/// The views of a sequence of room configuration entries.
pub open spec fn room_configs_view(rs: Seq<MatrixRoomConfigFile>) -> Seq<MatrixRoomConfigView> {
    rs.map_values(|r: MatrixRoomConfigFile| r@)
}

/// The views of a sequence of rooms.
pub open spec fn rooms_view(rs: Seq<MatrixRoom>) -> Seq<MatrixRoomView> {
    rs.map_values(|r: MatrixRoom| r@)
}

/// Whether some configuration entry names `room`.
pub open spec fn room_in_config(rs: Seq<MatrixRoomConfigView>, room: Seq<char>) -> bool {
    exists|i: int| 0 <= i < rs.len() && rs[i].room == room
}

/// Whether `n` is subscribed for `room` by any configuration entry: the
/// union of the notification lists of all entries naming the room.
pub open spec fn room_union_contains(
    rs: Seq<MatrixRoomConfigView>,
    room: Seq<char>,
    n: Seq<char>,
) -> bool {
    exists|i: int, j: int|
        0 <= i < rs.len() && rs[i].room == room && 0 <= j < rs[i].notifications.len()
            && rs[i].notifications[j] == n
}

/// Data structure to represent the Matrix endpoint.
#[derive(Debug, Clone)]
pub struct MatrixEndpoint {
    home_server: String,
    username: String,
    password: String,
    session_store_path: String,
    session_store_password: String,
    rooms: Vec<MatrixRoom>,
}

impl View for MatrixEndpoint {
    type V = MatrixEndpointView;

    closed spec fn view(&self) -> MatrixEndpointView {
        MatrixEndpointView {
            home_server: self.home_server@,
            username: self.username@,
            password: self.password@,
            session_store_path: self.session_store_path@,
            session_store_password: self.session_store_password@,
            rooms: rooms_view(self.rooms@),
        }
    }
}

impl MatrixEndpoint {
    /// Create a new `MatrixEndpoint`.
    pub fn new(
        home_server: &str,
        username: &str,
        password: &str,
        session_store_path: &str,
        session_store_password: &str,
        rooms: Vec<MatrixRoom>,
    ) -> (r: Self)
        ensures
            r@ == (MatrixEndpointView {
                home_server: home_server@,
                username: username@,
                password: password@,
                session_store_path: session_store_path@,
                session_store_password: session_store_password@,
                rooms: rooms_view(rooms@),
            }),
    {
        MatrixEndpoint {
            home_server: home_server.to_owned(),
            username: username.to_owned(),
            password: password.to_owned(),
            session_store_path: session_store_path.to_owned(),
            session_store_password: session_store_password.to_owned(),
            rooms,
        }
    }

    /// Return the Matrix home server.
    pub fn home_server(&self) -> (r: &str)
        ensures
            r@ == self@.home_server,
    {
        self.home_server.as_str()
    }

    /// Return the Matrix user name.
    pub fn username(&self) -> (r: &str)
        ensures
            r@ == self@.username,
    {
        self.username.as_str()
    }

    /// Return the password for the Matrix user.
    pub fn password(&self) -> (r: &str)
        ensures
            r@ == self@.password,
    {
        self.password.as_str()
    }

    /// Return the path to the persistent session store.
    pub fn session_store_path(&self) -> (r: &str)
        ensures
            r@ == self@.session_store_path,
    {
        self.session_store_path.as_str()
    }

    /// Return the password for the persistent session store database.
    pub fn session_store_password(&self) -> (r: &str)
        ensures
            r@ == self@.session_store_password,
    {
        self.session_store_password.as_str()
    }

    /// Return the Matrix rooms set up for this endpoint.
    pub fn rooms(&self) -> (r: &[MatrixRoom])
        ensures
            rooms_view(r@) == self@.rooms,
    {
        self.rooms.as_slice()
    }

    /// Build a `MatrixEndpoint` from configuration data, rejecting a blank
    /// home server, a blank user name and an empty room list. Room entries
    /// naming the same room are merged, their notification lists joined.
    pub fn from_config(value: &MatrixConfigFile) -> (r: Result<MatrixEndpoint, Error>)
        ensures
            match r {
                Ok(e) => {
                    &&& value.home_server@.len() > 0
                    &&& value.username@.len() > 0
                    &&& value.room@.len() > 0
                    &&& e@.home_server == value.home_server@
                    &&& e@.username == value.username@
                    &&& e@.password == value.password@
                    &&& e@.session_store_path == value.session_store_path@
                    &&& e@.session_store_password == value.session_store_password@
                    &&& merged_rooms(room_configs_view(value.room@), e@.rooms)
                },
                Err(e) => {
                    &&& (value.home_server@.len() == 0 || value.username@.len() == 0
                        || value.room@.len() == 0)
                    &&& (e matches Error::InvalidEndpointConfiguration(m) && (
                    if value.home_server@.len() == 0 {
                        m@ == "Matrix configuration home_server is blank"@
                    } else if value.username@.len() == 0 {
                        m@ == "Matrix configuration username is blank"@
                    } else {
                        m@ == "Matrix configuration has no rooms setup"@
                    }))
                },
            },
    {
        if value.home_server.as_str().is_empty() {
            Err(
                Error::InvalidEndpointConfiguration(
                    "Matrix configuration home_server is blank".to_owned(),
                ),
            )
        } else if value.username.as_str().is_empty() {
            Err(
                Error::InvalidEndpointConfiguration(
                    "Matrix configuration username is blank".to_owned(),
                ),
            )
        } else if value.room.is_empty() {
            Err(
                Error::InvalidEndpointConfiguration(
                    "Matrix configuration has no rooms setup".to_owned(),
                ),
            )
        } else {
            let rooms = value.rooms();
            Ok(
                MatrixEndpoint::new(
                    value.home_server.as_str(),
                    value.username.as_str(),
                    value.password.as_str(),
                    value.session_store_path.as_str(),
                    value.session_store_password.as_str(),
                    rooms,
                ),
            )
        }
    }

    /// One key set per room: the keys of the room's notification names,
    /// under the room identifier as sub-name.
    pub fn generate_keys(&self, hash_key: &Key) -> (r: Vec<NamedKeySet>)
        ensures
            named_key_sets_view(r@) == self@.rooms.map_values(
                |rm: MatrixRoomView|
                    NamedKeySetView {
                        sub_name: rm.room,
                        keys: derived_keys(hash_key@, rm.notifications),
                    },
            ),
    {
        let mut out: Vec<NamedKeySet> = Vec::new();
        let mut i: usize = 0;
        let ghost target = self@.rooms.map_values(
            |rm: MatrixRoomView|
                NamedKeySetView {
                    sub_name: rm.room,
                    keys: derived_keys(hash_key@, rm.notifications),
                },
        );
        while i < self.rooms.len()
            invariant
                i <= self.rooms@.len(),
                out@.len() == i,
                target == self@.rooms.map_values(
                    |rm: MatrixRoomView|
                        NamedKeySetView {
                            sub_name: rm.room,
                            keys: derived_keys(hash_key@, rm.notifications),
                        },
                ),
                self@.rooms == rooms_view(self.rooms@),
                named_key_sets_view(out@) == target.take(i as int),
            decreases self.rooms@.len() - i,
        {
            let room = &self.rooms[i];
            let keys = generate_key_vec(&room.notifications, hash_key);
            out.push(NamedKeySet::new(room.room.as_str(), keys));
            assert(named_key_sets_view(out@) =~~= target.take(i as int + 1));
            i = i + 1;
        }
        assert(target.take(self.rooms@.len() as int) =~~= target);
        out
    }
}

/// The relation between a room configuration list and the merged room list
/// built from it: room names are distinct, every configured room appears,
/// and each room carries exactly the union of the notification names that
/// the configuration subscribes for it.
/// Whether a sequence of strings holds no duplicates.
pub open spec fn distinct_seq(ss: Seq<Seq<char>>) -> bool {
    forall|a: int, b: int| 0 <= a < b < ss.len() ==> ss[a] != ss[b]
}

pub open spec fn merged_rooms(cfg: Seq<MatrixRoomConfigView>, out: Seq<MatrixRoomView>) -> bool {
    &&& (forall|i: int, j: int| 0 <= i < j < out.len() ==> out[i].room != out[j].room)
    &&& (forall|i: int| 0 <= i < out.len() ==> room_in_config(cfg, #[trigger] out[i].room))
    &&& (forall|k: int|
        0 <= k < cfg.len() ==> exists|i: int| 0 <= i < out.len() && out[i].room == (
        #[trigger] cfg[k]).room)
    &&& (forall|i: int, n: Seq<char>|
        0 <= i < out.len() ==> ((#[trigger] out[i].notifications.contains(n))
            <==> room_union_contains(cfg, out[i].room, n)))
    &&& (forall|i: int| 0 <= i < out.len() ==> distinct_seq((#[trigger] out[i]).notifications))
}

proof fn lemma_push_distinct(s: Seq<Seq<char>>, n: Seq<char>)
    requires
        distinct_seq(s),
        !s.contains(n),
    ensures
        distinct_seq(s.push(n)),
{
    assert forall|a: int, b: int|
        0 <= a < b < s.push(n).len() implies s.push(n)[a] != s.push(n)[b] by {
        if b < s.len() {
            assert(s[a] != s[b]);
        } else {
            if s[a] == n {
                assert(s.contains(n));
            }
        }
    }
}

impl MatrixConfigFile {
    /// The configured rooms, entries naming the same room merged into one
    /// with the union of their notification names.
    pub fn rooms(&self) -> (r: Vec<MatrixRoom>)
        ensures
            merged_rooms(room_configs_view(self.room@), rooms_view(r@)),
    {
        let mut out: Vec<MatrixRoom> = Vec::new();
        let mut k: usize = 0;
        let ghost cfg = room_configs_view(self.room@);
        while k < self.room.len()
            invariant
                k <= self.room@.len(),
                cfg == room_configs_view(self.room@),
                cfg.len() == self.room@.len(),
                forall|a: int| 0 <= a < cfg.len() ==> (#[trigger] cfg[a]) == self.room@[a]@,
                merged_rooms(cfg.take(k as int), rooms_view(out@)),
            decreases self.room@.len() - k,
        {
            let entry = &self.room[k];
            let ghost pre = rooms_view(out@);
            let ghost pre_vec = out@;
            let mut is_new = false;
            let idx: usize = match find_room(&out, entry.room.as_str()) {
                Some(found) => found,
                None => {
                    out.push(MatrixRoom::new(entry.room.clone(), Vec::new()));
                    is_new = true;
                    out.len() - 1
                },
            };
            let mut room = out.remove(idx);
            proof {
                if is_new {
                    assert(out@ =~= pre_vec);
                    assert(room@.notifications.len() == 0);
                } else {
                    assert(pre[idx as int] == pre_vec[idx as int]@);
                    assert(room@ == pre[idx as int]);
                    assert(distinct_seq(pre[idx as int].notifications));
                }
            }
            let mut j: usize = 0;
            let ghost base = room@.notifications;
            while j < entry.notifications.len()
                invariant
                    j <= entry.notifications@.len(),
                    room@.room == entry.room@,
                    distinct_seq(room@.notifications),
                    forall|n: Seq<char>|
                        #[trigger] room@.notifications.contains(n) <==> (base.contains(n) || exists|
                            b: int,
                        | 0 <= b < j && entry.notifications.deep_view()[b] == n),
                decreases entry.notifications@.len() - j,
            {
                let n = &entry.notifications[j];
                let ghost before = room@.notifications;
                proof {
                    assert(entry.notifications.deep_view()[j as int] == n@);
                }
                if !contains_string(&room.notifications, n.as_str()) {
                    room.notifications.push(n.clone());
                    proof {
                        assert(room@.notifications =~~= before.push(n@));
                        lemma_push_distinct(before, n@);
                        assert forall|x: Seq<char>| #[trigger]
                            room@.notifications.contains(x) <==> (before.contains(x) || x
                                == n@) by {
                            lemma_contains_push(before, n@, x);
                        }
                    }
                } else {
                    proof {
                        assert(room@.notifications.contains(n@));
                    }
                }
                j = j + 1;
            }
            let ghost updated = room@;
            out.insert(idx, room);
            proof {
                let post = rooms_view(out@);
                assert forall|n: Seq<char>| #[trigger]
                    updated.notifications.contains(n) <==> (base.contains(n)
                        || entry@.notifications.contains(n)) by {}
                if is_new {
                    assert(out@ =~= pre_vec.push(room));
                    assert(post =~= pre.push(updated));
                    assert forall|i: int|
                        0 <= i < pre.len() implies (#[trigger] pre[i].room) != entry.room@ by {
                        assert(pre[i] == pre_vec[i]@);
                    }
                    lemma_merge_step_new(cfg, k as int, pre, post, entry@, updated);
                } else {
                    assert(out@ =~= pre_vec.update(idx as int, room));
                    assert(post =~= pre.update(idx as int, updated));
                    lemma_merge_step_existing(cfg, k as int, pre, post, idx as int, updated);
                }
            }
            k = k + 1;
        }
        assert(cfg.take(cfg.len() as int) =~= cfg);
        out
    }
}

proof fn lemma_contains_push(s: Seq<Seq<char>>, n: Seq<char>, x: Seq<char>)
    ensures
        s.push(n).contains(x) <==> (s.contains(x) || x == n),
{
    if s.contains(x) {
        let w = choose|w: int| 0 <= w < s.len() && s[w] == x;
        assert(s.push(n)[w] == x);
    }
    if x == n {
        assert(s.push(n)[s.len() as int] == x);
    }
    if s.push(n).contains(x) {
        let w = choose|w: int| 0 <= w < s.push(n).len() && s.push(n)[w] == x;
        if w < s.len() {
            assert(s[w] == x);
        }
    }
}

proof fn lemma_merge_step_new(
    cfg: Seq<MatrixRoomConfigView>,
    k: int,
    pre: Seq<MatrixRoomView>,
    post: Seq<MatrixRoomView>,
    entry: MatrixRoomConfigView,
    updated: MatrixRoomView,
)
    requires
        0 <= k < cfg.len(),
        cfg[k] == entry,
        merged_rooms(cfg.take(k), pre),
        forall|i: int| 0 <= i < pre.len() ==> (#[trigger] pre[i].room) != entry.room,
        updated.room == entry.room,
        forall|n: Seq<char>|
            #[trigger] updated.notifications.contains(n) <==> entry.notifications.contains(n),
        distinct_seq(updated.notifications),
        post == pre.push(updated),
    ensures
        merged_rooms(cfg.take(k + 1), post),
{
    let cfg1 = cfg.take(k + 1);
    assert(cfg.take(k) =~= cfg1.take(k));
    assert(cfg1[k] == entry);
    // distinct rooms
    assert forall|i: int, j: int| 0 <= i < j < post.len() implies post[i].room != post[j].room by {
        if j < pre.len() {
            assert(pre[i].room != pre[j].room);
        } else {
            assert(post[j].room == entry.room);
            assert(pre[i].room != entry.room);
        }
    }
    // each output room is configured
    assert forall|i: int| 0 <= i < post.len() implies room_in_config(
        cfg1,
        #[trigger] post[i].room,
    ) by {
        if i < pre.len() {
            assert(room_in_config(cfg.take(k), pre[i].room));
            let w = choose|w: int| 0 <= w < cfg.take(k).len() && cfg.take(k)[w].room == pre[i].room;
            assert(cfg1[w].room == post[i].room);
        } else {
            assert(cfg1[k].room == post[i].room);
        }
    }
    // each configured room appears
    assert forall|a: int| 0 <= a < cfg1.len() implies exists|i: int|
        0 <= i < post.len() && post[i].room == (#[trigger] cfg1[a]).room by {
        if a < k {
            let i = choose|i: int| 0 <= i < pre.len() && pre[i].room == cfg.take(k)[a].room;
            assert(post[i].room == cfg1[a].room);
        } else {
            assert(post[pre.len() as int].room == cfg1[a].room);
        }
    }
    // notification unions
    assert forall|i: int, n: Seq<char>|
        0 <= i < post.len() implies ((#[trigger] post[i].notifications.contains(n))
            <==> room_union_contains(cfg1, post[i].room, n)) by {
        if i < pre.len() {
            assert(pre[i].notifications.contains(n) <==> room_union_contains(
                cfg.take(k),
                pre[i].room,
                n,
            ));
            if post[i].notifications.contains(n) {
                let (a, b) = choose|a: int, b: int|
                    0 <= a < cfg.take(k).len() && cfg.take(k)[a].room == pre[i].room && 0 <= b
                        < cfg.take(k)[a].notifications.len() && cfg.take(k)[a].notifications[b]
                        == n;
                assert(cfg1[a].room == post[i].room && cfg1[a].notifications[b] == n);
            }
            if room_union_contains(cfg1, post[i].room, n) {
                let (a, b) = choose|a: int, b: int|
                    0 <= a < cfg1.len() && cfg1[a].room == post[i].room && 0 <= b
                        < cfg1[a].notifications.len() && cfg1[a].notifications[b] == n;
                if a < k {
                    assert(cfg.take(k)[a].room == pre[i].room && cfg.take(k)[a].notifications[b]
                        == n);
                } else {
                    // the new entry's room differs from every earlier room
                    assert(cfg1[a].room == entry.room);
                    assert(pre[i].room != entry.room);
                }
            }
        } else {
            assert(post[i] == updated);
            assert(post[i].room == entry.room);
            if post[i].notifications.contains(n) {
                assert(entry.notifications.contains(n));
                let b = choose|b: int|
                    0 <= b < entry.notifications.len() && entry.notifications[b] == n;
                assert(cfg1[k].room == post[i].room && cfg1[k].notifications[b] == n);
            }
            if room_union_contains(cfg1, post[i].room, n) {
                let (a, b) = choose|a: int, b: int|
                    0 <= a < cfg1.len() && cfg1[a].room == post[i].room && 0 <= b
                        < cfg1[a].notifications.len() && cfg1[a].notifications[b] == n;
                if a < k {
                    // an earlier entry with this room would have created it before
                    assert(room_in_config(cfg.take(k), entry.room));
                    let w = choose|w: int|
                        0 <= w < pre.len() && pre[w].room == cfg.take(k)[a].room;
                    assert(pre[w].room == entry.room);
                } else {
                    assert(entry.notifications[b] == n);
                    assert(entry.notifications.contains(n));
                }
            }
        }
    }
    // duplicate-free notification lists
    assert forall|i: int|
        0 <= i < post.len() implies distinct_seq((#[trigger] post[i]).notifications) by {
        if i < pre.len() {
            assert(distinct_seq(pre[i].notifications));
        }
    }
}

proof fn lemma_merge_step_existing(
    cfg: Seq<MatrixRoomConfigView>,
    k: int,
    pre: Seq<MatrixRoomView>,
    post: Seq<MatrixRoomView>,
    idx: int,
    updated: MatrixRoomView,
)
    requires
        0 <= k < cfg.len(),
        merged_rooms(cfg.take(k), pre),
        0 <= idx < pre.len(),
        pre[idx].room == cfg[k].room,
        updated.room == cfg[k].room,
        forall|n: Seq<char>|
            #[trigger] updated.notifications.contains(n) <==> (pre[idx].notifications.contains(n)
                || cfg[k].notifications.contains(n)),
        distinct_seq(updated.notifications),
        post == pre.update(idx, updated),
    ensures
        merged_rooms(cfg.take(k + 1), post),
{
    let cfg1 = cfg.take(k + 1);
    assert(cfg.take(k) =~= cfg1.take(k));
    assert(cfg1[k] == cfg[k]);
    assert forall|i: int| 0 <= i < post.len() implies (#[trigger] post[i].room) == pre[i].room by {
    }
    // distinct rooms
    assert forall|i: int, j: int| 0 <= i < j < post.len() implies post[i].room != post[j].room by {
        assert(pre[i].room != pre[j].room);
    }
    // each output room is configured
    assert forall|i: int| 0 <= i < post.len() implies room_in_config(
        cfg1,
        #[trigger] post[i].room,
    ) by {
        assert(room_in_config(cfg.take(k), pre[i].room));
        let w = choose|w: int| 0 <= w < cfg.take(k).len() && cfg.take(k)[w].room == pre[i].room;
        assert(cfg1[w].room == post[i].room);
    }
    // each configured room appears
    assert forall|a: int| 0 <= a < cfg1.len() implies exists|i: int|
        0 <= i < post.len() && post[i].room == (#[trigger] cfg1[a]).room by {
        if a < k {
            let i = choose|i: int| 0 <= i < pre.len() && pre[i].room == cfg.take(k)[a].room;
            assert(post[i].room == cfg1[a].room);
        } else {
            assert(post[idx].room == cfg1[a].room);
        }
    }
    // notification unions
    assert forall|i: int, n: Seq<char>|
        0 <= i < post.len() implies ((#[trigger] post[i].notifications.contains(n))
            <==> room_union_contains(cfg1, post[i].room, n)) by {
        assert(pre[i].notifications.contains(n) <==> room_union_contains(
            cfg.take(k),
            pre[i].room,
            n,
        ));
        if i != idx {
            if post[i].notifications.contains(n) {
                let (a, b) = choose|a: int, b: int|
                    0 <= a < cfg.take(k).len() && cfg.take(k)[a].room == pre[i].room && 0 <= b
                        < cfg.take(k)[a].notifications.len() && cfg.take(k)[a].notifications[b]
                        == n;
                assert(cfg1[a].room == post[i].room && cfg1[a].notifications[b] == n);
            }
            if room_union_contains(cfg1, post[i].room, n) {
                let (a, b) = choose|a: int, b: int|
                    0 <= a < cfg1.len() && cfg1[a].room == post[i].room && 0 <= b
                        < cfg1[a].notifications.len() && cfg1[a].notifications[b] == n;
                if a < k {
                    assert(cfg.take(k)[a].room == pre[i].room && cfg.take(k)[a].notifications[b]
                        == n);
                } else {
                    assert(cfg1[a].room == cfg[k].room);
                    assert(post[i].room != post[idx].room);
                }
            }
        } else {
            if post[idx].notifications.contains(n) {
                if pre[idx].notifications.contains(n) {
                    let (a, b) = choose|a: int, b: int|
                        0 <= a < cfg.take(k).len() && cfg.take(k)[a].room == pre[idx].room && 0 <= b
                            < cfg.take(k)[a].notifications.len() && cfg.take(k)[a].notifications[b]
                            == n;
                    assert(cfg1[a].room == post[idx].room && cfg1[a].notifications[b] == n);
                } else {
                    assert(cfg[k].notifications.contains(n));
                    let b = choose|b: int|
                        0 <= b < cfg[k].notifications.len() && cfg[k].notifications[b] == n;
                    assert(cfg1[k].room == post[idx].room && cfg1[k].notifications[b] == n);
                }
            }
            if room_union_contains(cfg1, post[idx].room, n) {
                let (a, b) = choose|a: int, b: int|
                    0 <= a < cfg1.len() && cfg1[a].room == post[idx].room && 0 <= b
                        < cfg1[a].notifications.len() && cfg1[a].notifications[b] == n;
                if a < k {
                    assert(cfg.take(k)[a].room == pre[idx].room && cfg.take(k)[a].notifications[b]
                        == n);
                } else {
                    assert(cfg[k].notifications[b] == n);
                    assert(cfg[k].notifications.contains(n));
                }
            }
        }
    }
    // duplicate-free notification lists
    assert forall|i: int|
        0 <= i < post.len() implies distinct_seq((#[trigger] post[i]).notifications) by {
        if i != idx {
            assert(distinct_seq(pre[i].notifications));
        }
    }
}

/// Index of the room named `room` in `rooms`, if any.
fn find_room(rooms: &Vec<MatrixRoom>, room: &str) -> (r: Option<usize>)
    ensures
        match r {
            Some(i) => i < rooms@.len() && rooms@[i as int]@.room == room@,
            None => forall|i: int| 0 <= i < rooms@.len() ==> (#[trigger] rooms@[i]@.room) != room@,
        },
{
    let mut i: usize = 0;
    while i < rooms.len()
        invariant
            i <= rooms@.len(),
            forall|a: int| 0 <= a < i ==> (#[trigger] rooms@[a]@.room) != room@,
        decreases rooms@.len() - i,
    {
        if str_eq(rooms[i].room.as_str(), room) {
            return Some(i);
        }
        i = i + 1;
    }
    None
}

/// Whether `needle` occurs in `haystack`.
fn contains_string(haystack: &Vec<String>, needle: &str) -> (r: bool)
    ensures
        r == haystack.deep_view().contains(needle@),
{
    let mut i: usize = 0;
    while i < haystack.len()
        invariant
            i <= haystack@.len(),
            forall|a: int| 0 <= a < i ==> haystack.deep_view()[a] != needle@,
        decreases haystack@.len() - i,
    {
        if str_eq(haystack[i].as_str(), needle) {
            proof {
                assert(haystack.deep_view()[i as int] == needle@);
            }
            return true;
        }
        i = i + 1;
    }
    proof {
        if haystack.deep_view().contains(needle@) {
            let w = choose|w: int|
                0 <= w < haystack.deep_view().len() && haystack.deep_view()[w] == needle@;
        }
    }
    false
}

/// Index of the last character of the trimmed suffix: trailing whitespace
/// removed from position `j` leftwards.
pub open spec fn trim_end_idx(s: Seq<char>, j: int) -> int
    decreases j
        when 0 <= j <= s.len()
{
    if j > 0 && is_json_ws(s[j - 1]) {
        trim_end_idx(s, j - 1)
    } else {
        j
    }
}

/// The string with leading and trailing ASCII whitespace removed.
pub open spec fn trimmed(s: Seq<char>) -> Seq<char> {
    let a = skip_ws(s, 0);
    let b = trim_end_idx(s, s.len() as int);
    if a <= b {
        s.subrange(a, b)
    } else {
        Seq::<char>::empty()
    }
}

/// The canonical form of a room identifier: trimmed, it must start with `#`
/// or `!`; when it holds no `:` the default server is appended after one.
pub open spec fn canonical_room(room: Seq<char>, default_server: Seq<char>) -> Option<Seq<char>> {
    let t = trimmed(room);
    if t.len() > 0 && (t[0] == '#' || t[0] == '!') {
        if t.contains(':') {
            Some(t)
        } else {
            Some(t + seq![':'] + default_server)
        }
    } else {
        None
    }
}

/// The string with leading and trailing ASCII whitespace removed.
fn trim_exec(s: &str) -> (r: String)
    ensures
        r@ == trimmed(s@),
{
    let n = s.unicode_len();
    let mut a: usize = 0;
    while a < n && is_ws_char(s.get_char(a))
        invariant
            a <= n,
            n == s@.len(),
            skip_ws(s@, 0) == skip_ws(s@, a as int),
        decreases n - a,
    {
        a = a + 1;
    }
    assert(skip_ws(s@, a as int) == a);
    let mut b: usize = n;
    while b > 0 && is_ws_char(s.get_char(b - 1))
        invariant
            b <= n,
            n == s@.len(),
            trim_end_idx(s@, n as int) == trim_end_idx(s@, b as int),
        decreases b,
    {
        b = b - 1;
    }
    assert(trim_end_idx(s@, b as int) == b);
    if a <= b {
        s.substring_char(a, b).to_owned()
    } else {
        String::new()
    }
}

fn is_ws_char(c: char) -> (r: bool)
    ensures
        r == is_json_ws(c),
{
    c == ' ' || c == '\t' || c == '\n' || c == '\r'
}

/// Whether the string holds a colon.
fn contains_colon(s: &String) -> (r: bool)
    ensures
        r == s@.contains(':'),
{
    let n = s.as_str().unicode_len();
    let mut i: usize = 0;
    while i < n
        invariant
            i <= n,
            n == s@.len(),
            forall|a: int| 0 <= a < i ==> s@[a] != ':',
        decreases n - i,
    {
        if s.as_str().get_char(i) == ':' {
            assert(s@.contains(':'));
            return true;
        }
        i = i + 1;
    }
    proof {
        if s@.contains(':') {
            let w = choose|w: int| 0 <= w < s@.len() && s@[w] == ':';
        }
    }
    false
}

/// Canonicalize a room identifier: trimmed, it must start with `#` or `!`;
/// when it holds no colon, a colon and the default server are appended.
pub fn validate_room(room: &str, default_server: &str) -> (r: Result<String, Error>)
    ensures
        match r {
            Ok(s) => canonical_room(room@, default_server@) == Some(s@),
            Err(e) => canonical_room(room@, default_server@) is None && e
                == Error::InvalidMatrixRoomIdentifier,
        },
{
    let t = trim_exec(room);
    if t.as_str().is_empty() {
        return Err(Error::InvalidMatrixRoomIdentifier);
    }
    let c0 = t.as_str().get_char(0);
    if c0 == '#' || c0 == '!' {
        if contains_colon(&t) {
            Ok(t)
        } else {
            let mut out = t;
            push_char(&mut out, ':');
            append_str(&mut out, default_server);
            proof {
                assert(out@ =~= trimmed(room@) + seq![':'] + default_server@);
            }
            Ok(out)
        }
    } else {
        Err(Error::InvalidMatrixRoomIdentifier)
    }
}

} // verus!
