//! The server's routing core: decode a raw frame into notifications, match
//! each against the key sets of every endpoint, and decide what is
//! published on each endpoint's bus. The surrounding receive loop and the
//! buses themselves live outside the library; they feed frames in and carry
//! the returned values out.

use crate::codec::decode_all;
use crate::endpoints::{keys_view, named_key_sets_view, NamedKeySet, NamedKeySetView};
use crate::notifications::{
    valid_for, Notification, NotificationView, ValidatedNotification, ValidatedNotificationView,
};
use vstd::prelude::*;

verus! {

/// The views of a sequence of validated notifications.
pub open spec fn validated_view(vs: Seq<ValidatedNotification>) -> Seq<ValidatedNotificationView> {
    vs.map_values(|v: ValidatedNotification| v@)
}

/// Whether the notification is valid for at least one key of the set.
pub open spec fn matches_key_set(n: NotificationView, ks: Seq<Seq<u8>>) -> bool {
    exists|i: int| 0 <= i < ks.len() && valid_for(n, ks[i])
}

/// What one notification puts on one endpoint's bus: for each named key set
/// the notification matches, in order, its message under that sub-name.
pub open spec fn route_spec(n: NotificationView, bindings: Seq<NamedKeySetView>) -> Seq<
    ValidatedNotificationView,
>
    decreases bindings.len(),
{
    if bindings.len() == 0 {
        Seq::<ValidatedNotificationView>::empty()
    } else {
        (if matches_key_set(n, bindings[0].keys) {
            seq![
                ValidatedNotificationView { message: n.message, sub_name: bindings[0].sub_name },
            ]
        } else {
            Seq::<ValidatedNotificationView>::empty()
        }) + route_spec(n, bindings.drop_first())
    }
}

/// What a whole decoded frame puts on one endpoint's bus: the routed output
/// of each well-formed notification, in frame order; malformed entries
/// contribute nothing.
pub open spec fn route_all(
    ns: Seq<Option<NotificationView>>,
    bindings: Seq<NamedKeySetView>,
) -> Seq<ValidatedNotificationView>
    decreases ns.len(),
{
    if ns.len() == 0 {
        Seq::<ValidatedNotificationView>::empty()
    } else {
        (match ns[0] {
            Some(n) => route_spec(n, bindings),
            None => Seq::<ValidatedNotificationView>::empty(),
        }) + route_all(ns.drop_first(), bindings)
    }
}

proof fn lemma_route_spec_snoc(n: NotificationView, bs: Seq<NamedKeySetView>, b: NamedKeySetView)
    ensures
        route_spec(n, bs.push(b)) == route_spec(n, bs) + (if matches_key_set(n, b.keys) {
            seq![ValidatedNotificationView { message: n.message, sub_name: b.sub_name }]
        } else {
            Seq::<ValidatedNotificationView>::empty()
        }),
    decreases bs.len(),
{
    let tail = if matches_key_set(n, b.keys) {
        seq![ValidatedNotificationView { message: n.message, sub_name: b.sub_name }]
    } else {
        Seq::<ValidatedNotificationView>::empty()
    };
    if bs.len() == 0 {
        assert(bs.push(b)[0] == b);
        assert(bs.push(b).drop_first() =~= Seq::<NamedKeySetView>::empty());
        assert(route_spec(n, Seq::<NamedKeySetView>::empty())
            =~= Seq::<ValidatedNotificationView>::empty());
        assert(route_spec(n, bs.push(b)) =~= route_spec(n, bs) + tail);
    } else {
        assert(bs.push(b)[0] == bs[0]);
        assert(bs.push(b).drop_first() =~= bs.drop_first().push(b));
        lemma_route_spec_snoc(n, bs.drop_first(), b);
        assert(route_spec(n, bs.push(b)) =~= route_spec(n, bs) + tail);
    }
}

proof fn lemma_route_all_snoc(
    ns: Seq<Option<NotificationView>>,
    x: Option<NotificationView>,
    bindings: Seq<NamedKeySetView>,
)
    ensures
        route_all(ns.push(x), bindings) == route_all(ns, bindings) + (match x {
            Some(n) => route_spec(n, bindings),
            None => Seq::<ValidatedNotificationView>::empty(),
        }),
    decreases ns.len(),
{
    let tail = match x {
        Some(n) => route_spec(n, bindings),
        None => Seq::<ValidatedNotificationView>::empty(),
    };
    if ns.len() == 0 {
        assert(ns.push(x)[0] == x);
        assert(ns.push(x).drop_first() =~= Seq::<Option<NotificationView>>::empty());
        assert(route_all(Seq::<Option<NotificationView>>::empty(), bindings)
            =~= Seq::<ValidatedNotificationView>::empty());
        assert(route_all(ns.push(x), bindings) =~= route_all(ns, bindings) + tail);
    } else {
        assert(ns.push(x)[0] == ns[0]);
        assert(ns.push(x).drop_first() =~= ns.drop_first().push(x));
        lemma_route_all_snoc(ns.drop_first(), x, bindings);
        assert(route_all(ns.push(x), bindings) =~= route_all(ns, bindings) + tail);
    }
}

/// Match one notification against one endpoint's named key sets and return
/// what is to be published on that endpoint's bus, in key-set order.
pub fn route_notification(note: &Notification, bindings: &Vec<NamedKeySet>) -> (r: Vec<
    ValidatedNotification,
>)
    ensures
        validated_view(r@) == route_spec(note@, named_key_sets_view(bindings@)),
{
    let mut out: Vec<ValidatedNotification> = Vec::new();
    let mut i: usize = 0;
    let ghost bv = named_key_sets_view(bindings@);
    while i < bindings.len()
        invariant
            i <= bindings@.len(),
            bv == named_key_sets_view(bindings@),
            validated_view(out@) == route_spec(note@, bv.take(i as int)),
        decreases bindings@.len() - i,
    {
        let binding = &bindings[i];
        let keys_ref = binding.keys();
        proof {
            assert(bv[i as int] == bindings@[i as int]@);
            assert(bv[i as int].keys == keys_view(keys_ref@));
            assert(bv.take(i as int + 1) =~= bv.take(i as int).push(bv[i as int]));
            lemma_route_spec_snoc(note@, bv.take(i as int), bv[i as int]);
        }
        if note.validate_set(keys_ref) {
            proof {
                let w = choose|w: int|
                    0 <= w < keys_ref@.len() && valid_for(note@, keys_ref@[w]@);
                assert(keys_view(keys_ref@)[w] == keys_ref@[w]@);
                assert(matches_key_set(note@, bv[i as int].keys));
            }
            let message = note.message();
            out.push(ValidatedNotification::new(binding.sub_name(), message));
            assert(validated_view(out@) =~= route_spec(note@, bv.take(i as int + 1)));
        } else {
            proof {
                if matches_key_set(note@, bv[i as int].keys) {
                    let w = choose|w: int|
                        0 <= w < bv[i as int].keys.len() && valid_for(
                            note@,
                            bv[i as int].keys[w],
                        );
                    assert(bv[i as int].keys[w] == keys_ref@[w]@);
                }
                assert(!matches_key_set(note@, bv[i as int].keys));
                assert(validated_view(out@) + Seq::<ValidatedNotificationView>::empty()
                    =~= validated_view(out@));
            }
        }
        i = i + 1;
    }
    assert(bv.take(bindings@.len() as int) =~= bv);
    out
}

/// Decode one raw frame and route every well-formed notification in it
/// against every endpoint. The outer result is indexed by endpoint; each
/// inner vector holds, in order, what is to be published on that
/// endpoint's bus.
pub fn route_frame(frame: &str, endpoints: &Vec<Vec<NamedKeySet>>) -> (r: Vec<
    Vec<ValidatedNotification>,
>)
    ensures
        r@.len() == endpoints@.len(),
        forall|e: int|
            0 <= e < r@.len() ==> validated_view(#[trigger] r@[e]@) == route_all(
                decode_all(frame@, 0),
                named_key_sets_view(endpoints@[e]@),
            ),
{
    let decoded = Notification::from_json_multi(frame);
    let ghost dv = decode_all(frame@, 0);
    let mut out: Vec<Vec<ValidatedNotification>> = Vec::new();
    let mut e: usize = 0;
    while e < endpoints.len()
        invariant
            e <= endpoints@.len(),
            out@.len() == e,
            dv == decode_all(frame@, 0),
            crate::codec::results_view(decoded@) == dv,
            forall|a: int|
                0 <= a < e ==> validated_view(#[trigger] out@[a]@) == route_all(
                    dv,
                    named_key_sets_view(endpoints@[a]@),
                ),
        decreases endpoints@.len() - e,
    {
        let bindings = &endpoints[e];
        let ghost bv = named_key_sets_view(bindings@);
        let mut bus: Vec<ValidatedNotification> = Vec::new();
        let mut j: usize = 0;
        while j < decoded.len()
            invariant
                j <= decoded@.len(),
                bv == named_key_sets_view(bindings@),
                dv == crate::codec::results_view(decoded@),
                dv.len() == decoded@.len(),
                validated_view(bus@) == route_all(dv.take(j as int), bv),
            decreases decoded@.len() - j,
        {
            proof {
                assert(dv.take(j as int + 1) =~= dv.take(j as int).push(dv[j as int]));
                lemma_route_all_snoc(dv.take(j as int), dv[j as int], bv);
            }
            match &decoded[j] {
                Ok(n) => {
                    let mut routed = route_notification(n, bindings);
                    bus.append(&mut routed);
                    proof {
                        assert(dv[j as int] == Some(n@));
                        assert(validated_view(bus@) =~= route_all(dv.take(j as int + 1), bv));
                    }
                },
                Err(_) => {
                    proof {
                        assert(dv[j as int] is None);
                        assert(validated_view(bus@) + Seq::<ValidatedNotificationView>::empty()
                            =~= validated_view(bus@));
                    }
                },
            }
            j = j + 1;
        }
        proof {
            assert(dv.take(decoded@.len() as int) =~= dv);
        }
        out.push(bus);
        e = e + 1;
    }
    out
}

/// A notification matching one of an endpoint's key sets is routed to that
/// endpoint: its message appears on the endpoint's bus under that set's
/// sub-name.
pub proof fn lemma_route_delivers_match(
    n: NotificationView,
    bs: Seq<NamedKeySetView>,
    i: int,
)
    requires
        0 <= i < bs.len(),
        matches_key_set(n, bs[i].keys),
    ensures
        route_spec(n, bs).contains(
            ValidatedNotificationView { message: n.message, sub_name: bs[i].sub_name },
        ),
    decreases bs.len(),
{
    let v = ValidatedNotificationView { message: n.message, sub_name: bs[i].sub_name };
    if i == 0 {
        assert(route_spec(n, bs)[0] == v);
    } else {
        lemma_route_delivers_match(n, bs.drop_first(), i - 1);
        let tail = route_spec(n, bs.drop_first());
        let w = choose|w: int| 0 <= w < tail.len() && tail[w] == v;
        let head = if matches_key_set(n, bs[0].keys) {
            seq![ValidatedNotificationView { message: n.message, sub_name: bs[0].sub_name }]
        } else {
            Seq::<ValidatedNotificationView>::empty()
        };
        assert(route_spec(n, bs)[head.len() + w] == v);
    }
}

/// A notification matching none of an endpoint's key sets is routed
/// nowhere: nothing of it appears on the endpoint's bus.
pub proof fn lemma_route_no_match_empty(n: NotificationView, bs: Seq<NamedKeySetView>)
    requires
        forall|i: int| 0 <= i < bs.len() ==> !matches_key_set(n, (#[trigger] bs[i]).keys),
    ensures
        route_spec(n, bs).len() == 0,
    decreases bs.len(),
{
    if bs.len() > 0 {
        assert(!matches_key_set(n, bs[0].keys));
        assert(forall|i: int|
            0 <= i < bs.drop_first().len() ==> !matches_key_set(
                n,
                (#[trigger] bs.drop_first()[i]).keys,
            ));
        lemma_route_no_match_empty(n, bs.drop_first());
    }
}

} // verus!
