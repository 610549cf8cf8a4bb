//! The client's dispatch core: sign each queued message under the key
//! derived for its notification name and hand the notifications back for
//! broadcast. The queue draining and the sends themselves live outside the
//! library.

use crate::notifications::{derived_key, mac_hex, ClientReadyMessage, Key, Notification};
use vstd::prelude::*;

verus! {

/// Sign every queued message: each becomes a notification whose MAC is
/// computed under the key derived for its notification name from the
/// client key, in queue order.
pub fn sign_ready_messages(messages: Vec<ClientReadyMessage>, key: &Key) -> (r: Vec<Notification>)
    ensures
        r@.len() == messages@.len(),
        forall|i: int|
            0 <= i < r@.len() ==> (#[trigger] r@[i])@.message == messages@[i]@.message && r@[i]@.key
                == mac_hex(
                derived_key(key@, messages@[i]@.notification_name),
                messages@[i]@.message.text,
                messages@[i]@.message.time,
            ),
{
    let ghost orig = messages@;
    let mut queue = messages;
    let mut out: Vec<Notification> = Vec::new();
    while queue.len() > 0
        invariant
            out@.len() + queue@.len() == orig.len(),
            queue@ == orig.skip(out@.len() as int),
            forall|i: int|
                0 <= i < out@.len() ==> (#[trigger] out@[i])@.message == orig[i]@.message
                    && out@[i]@.key == mac_hex(
                    derived_key(key@, orig[i]@.notification_name),
                    orig[i]@.message.text,
                    orig[i]@.message.time,
                ),
        decreases queue@.len(),
    {
        let ghost done = out@.len() as int;
        let m = queue.remove(0);
        proof {
            assert(m == orig[done]);
            assert(queue@ =~= orig.skip(done + 1));
        }
        out.push(m.to_notification(key));
    }
    out
}

} // verus!
