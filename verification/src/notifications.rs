//! Representation of notification messages and the keys that authenticate
//! them.
//!
//! A [`Message`] carries opaque text and a creation timestamp. A
//! [`Notification`] is the signed wire envelope: the message plus a MAC,
//! rendered as lowercase hexadecimal, computed with a keyed BLAKE3 hash over
//! the text followed by the decimal timestamp. A [`Key`] wraps the 32 raw
//! bytes of such a hash.

use crate::text::{
    bytes_to_hex, dec_bytes, hex_decode, hex_of, hex_val, hex_val_exec, is_hex_digit, is_hex_seq,
    is_lower_hex_digit, lemma_hex_of_props, u128_to_dec_bytes,
};
use vstd::prelude::*;
use vstd::string::StrSliceExecFns;
use vstd::utf8::encode_utf8;

verus! {

/// Mathematical content of a [`Message`]: its text and creation time.
pub ghost struct MessageView {
    pub text: Seq<char>,
    pub time: u128,
}

/// Mathematical content of a [`Notification`]: the message and the
/// hexadecimal MAC carried in its `key` field.
pub ghost struct NotificationView {
    pub message: MessageView,
    pub key: Seq<char>,
}

/// Mathematical content of a [`ClientReadyMessage`].
pub ghost struct ClientReadyMessageView {
    pub message: MessageView,
    pub notification_name: Seq<char>,
}

/// Mathematical content of a [`ValidatedNotification`].
pub ghost struct ValidatedNotificationView {
    pub message: MessageView,
    pub sub_name: Seq<char>,
}

/// The 32-byte keyed BLAKE3 hash of `input` under the 32-byte `key`. The
/// function itself is left uninterpreted; the trusted wrapper below ties it
/// to the outside implementation.
pub uninterp spec fn blake3_keyed(key: Seq<u8>, input: Seq<u8>) -> Seq<u8>;

/// Relies on `blake3::keyed_hash` and `blake3::Hash::as_bytes`: the 32-byte
/// keyed BLAKE3 hash of `input` under `key`. The result is a function of the
/// two arguments alone.
#[verifier::external_body]
fn keyed_hash(key: &[u8; 32], input: &[u8]) -> (r: [u8; 32])
    ensures
        r@ == blake3_keyed(key@, input@),
{
    *blake3::keyed_hash(key, input).as_bytes()
}

/// Relies on `std::time::SystemTime::now`: nanoseconds since the Unix epoch
/// at the moment of the call, zero when the clock reads earlier than the
/// epoch. Nothing is promised of the value.
#[verifier::external_body]
fn now_nanos() -> u128 {
    std::time::SystemTime::now()
        .duration_since(std::time::UNIX_EPOCH)
        .unwrap_or_default()
        .as_nanos()
}

/// Bytes a MAC is computed over: the UTF-8 text followed by the ASCII
/// decimal rendering of the time.
pub open spec fn mac_input(text: Seq<char>, time: u128) -> Seq<u8> {
    encode_utf8(text) + dec_bytes(time)
}

/// Key bytes derived for `name` under the parent key bytes `parent`.
pub open spec fn derived_key(parent: Seq<u8>, name: Seq<char>) -> Seq<u8> {
    blake3_keyed(parent, encode_utf8(name))
}

/// The lowercase hexadecimal MAC of `(text, time)` under key bytes `k`.
pub open spec fn mac_hex(k: Seq<u8>, text: Seq<char>, time: u128) -> Seq<char> {
    hex_of(blake3_keyed(k, mac_input(text, time)))
}

/// Whether the notification `n` is valid for key bytes `k`: its `key` field
/// equals the MAC of its message under `k`.
pub open spec fn valid_for(n: NotificationView, k: Seq<u8>) -> bool {
    n.key == mac_hex(k, n.message.text, n.message.time)
}

/// The actual message data that is being transmitted in a [`Notification`].
#[derive(Debug, Eq, PartialEq, Hash, Clone)]
pub struct Message {
    text: String,
    time: u128,
}

/// A [`Message`] that has been assigned a notification name.
#[derive(Debug, PartialEq, Eq, Hash, Clone)]
pub struct ClientReadyMessage {
    message: Message,
    notification_name: String,
}

/// A [`Message`] that has been validated and attributed to the sub-name of
/// an endpoint.
#[derive(Debug, PartialEq, Eq, Hash, Clone)]
pub struct ValidatedNotification {
    message: Message,
    sub_name: String,
}

/// Notification ready to be sent: [`Message`] data plus a hash value for
/// validation.
#[derive(Debug, Eq, PartialEq, Hash, Clone)]
pub struct Notification {
    message: Message,
    key: String,
}

/// Wrapper around the 32 raw bytes of a keyed BLAKE3 hash, used for
/// validation.
#[derive(Debug, PartialEq, Eq, Hash, Clone)]
pub struct Key {
    bytes: [u8; 32],
}

impl View for Message {
    type V = MessageView;

    closed spec fn view(&self) -> MessageView {
        MessageView { text: self.text@, time: self.time }
    }
}

impl View for ClientReadyMessage {
    type V = ClientReadyMessageView;

    closed spec fn view(&self) -> ClientReadyMessageView {
        ClientReadyMessageView {
            message: self.message@,
            notification_name: self.notification_name@,
        }
    }
}

impl View for ValidatedNotification {
    type V = ValidatedNotificationView;

    closed spec fn view(&self) -> ValidatedNotificationView {
        ValidatedNotificationView { message: self.message@, sub_name: self.sub_name@ }
    }
}

impl View for Notification {
    type V = NotificationView;

    closed spec fn view(&self) -> NotificationView {
        NotificationView { message: self.message@, key: self.key@ }
    }
}

impl View for Key {
    type V = Seq<u8>;

    closed spec fn view(&self) -> Seq<u8> {
        self.bytes@
    }
}

impl Message {
    /// Create a new `Message` from the provided text, stamped with the
    /// current time.
    pub fn new(text: &str) -> (r: Message)
        ensures
            r@.text == text@,
    {
        Message { text: text.to_owned(), time: now_nanos() }
    }

    /// Create a new `Message` from the provided text and a caller-chosen
    /// creation time.
    pub fn with_time(text: &str, time: u128) -> (r: Message)
        ensures
            r@ == (MessageView { text: text@, time }),
    {
        Message { text: text.to_owned(), time }
    }

    /// Return the inner text value.
    pub fn text(&self) -> (r: &str)
        ensures
            r@ == self@.text,
    {
        self.text.as_str()
    }

    /// Return the time when this `Message` was created.
    pub fn time(&self) -> (r: u128)
        ensures
            r == self@.time,
    {
        self.time
    }

    /// Assemble a message from already-decoded parts.
    pub(crate) fn from_parts(text: String, time: u128) -> (r: Message)
        ensures
            r@ == (MessageView { text: text@, time }),
    {
        Message { text, time }
    }

    /// Create a [`Key`] for this `Message` under the key of a notification
    /// name.
    fn create_key(&self, notification_key: &Key) -> (r: Key)
        ensures
            r@ == blake3_keyed(notification_key@, mac_input(self@.text, self@.time)),
    {
        let mut data: Vec<u8> = self.text.as_str().as_bytes_vec();
        let mut digits = u128_to_dec_bytes(self.time);
        data.append(&mut digits);
        Key { bytes: keyed_hash(&notification_key.bytes, data.as_slice()) }
    }

    /// Assign a notification name to this `Message`, turning it into a
    /// [`ClientReadyMessage`].
    pub fn to_client_ready_message(self, notification_name: &str) -> (r: ClientReadyMessage)
        ensures
            r@.message == self@,
            r@.notification_name == notification_name@,
    {
        ClientReadyMessage::new(notification_name, self)
    }
}

impl ClientReadyMessage {
    /// Create a new `ClientReadyMessage`.
    pub(crate) fn new(notification_name: &str, message: Message) -> (r: ClientReadyMessage)
        ensures
            r@.message == message@,
            r@.notification_name == notification_name@,
    {
        ClientReadyMessage { notification_name: notification_name.to_owned(), message }
    }

    /// Create a [`Notification`] for the contained [`Message`], signed with
    /// the key derived for the notification name under the client key.
    pub fn to_notification(self, client_key: &Key) -> (r: Notification)
        ensures
            r@.message == self@.message,
            r@.key == mac_hex(
                derived_key(client_key@, self@.notification_name),
                self@.message.text,
                self@.message.time,
            ),
            r@.key.len() == 64,
            forall|i: int| 0 <= i < r@.key.len() ==> is_lower_hex_digit(#[trigger] r@.key[i]),
    {
        let key = Key::generate(self.notification_name.as_str(), client_key);
        Notification::new(self.message, &key)
    }

    /// Return the inner [`Message`].
    pub fn message(&self) -> (r: &Message)
        ensures
            r@ == self@.message,
    {
        &self.message
    }

    /// Return the assigned notification name.
    pub fn notification_name(&self) -> (r: &str)
        ensures
            r@ == self@.notification_name,
    {
        self.notification_name.as_str()
    }
}

impl ValidatedNotification {
    /// Create a new `ValidatedNotification`.
    pub fn new(name_id: &str, message: Message) -> (r: ValidatedNotification)
        ensures
            r@.message == message@,
            r@.sub_name == name_id@,
    {
        ValidatedNotification { sub_name: name_id.to_owned(), message }
    }

    /// Return the inner [`Message`] value.
    pub fn message(&self) -> (r: &Message)
        ensures
            r@ == self@.message,
    {
        &self.message
    }

    /// Return the sub-name for this `ValidatedNotification`.
    pub fn sub_name(&self) -> (r: &str)
        ensures
            r@ == self@.sub_name,
    {
        self.sub_name.as_str()
    }
}

impl Notification {
    /// Create a new `Notification` from message data and the key for its
    /// notification name. The `key` field is the MAC of the message under
    /// that key, as exactly 64 lowercase hexadecimal characters.
    pub fn new(message: Message, notification_key: &Key) -> (r: Notification)
        ensures
            r@.message == message@,
            r@.key == mac_hex(notification_key@, message@.text, message@.time),
            r@.key.len() == 64,
            forall|i: int| 0 <= i < r@.key.len() ==> is_lower_hex_digit(#[trigger] r@.key[i]),
    {
        let mac = message.create_key(notification_key);
        proof {
            lemma_hex_of_props(mac@);
        }
        let key = mac.to_hex();
        Notification { message, key }
    }

    /// Assemble a notification from already-decoded parts.
    pub(crate) fn from_parts(message: Message, key: String) -> (r: Notification)
        ensures
            r@ == (NotificationView { message: message@, key: key@ }),
    {
        Notification { message, key }
    }

    /// Compare the provided notification name [`Key`] to this notification.
    pub fn validate(&self, hash_key: &Key) -> (r: bool)
        ensures
            r == valid_for(self@, hash_key@),
    {
        let new_key = self.message.create_key(hash_key);
        let new_hex = new_key.to_hex();
        self.key == new_hex
    }

    /// Compare each [`Key`] of the provided set to this notification; true
    /// when any of them produces its MAC.
    pub fn validate_set(&self, hash_keys: &Vec<Key>) -> (r: bool)
        ensures
            r == exists|i: int| 0 <= i < hash_keys@.len() && valid_for(self@, hash_keys@[i]@),
    {
        let mut idx: usize = 0;
        while idx < hash_keys.len()
            invariant
                idx <= hash_keys@.len(),
                forall|j: int| 0 <= j < idx ==> !valid_for(self@, hash_keys@[j]@),
            decreases hash_keys@.len() - idx,
        {
            if self.validate(&hash_keys[idx]) {
                return true;
            }
            idx = idx + 1;
        }
        false
    }

    /// Return the inner [`Message`].
    pub fn message(&self) -> (r: Message)
        ensures
            r@ == self@.message,
    {
        Message { text: self.message.text.clone(), time: self.message.time }
    }

    /// Return the notification key as a string slice.
    pub fn key(&self) -> (r: &str)
        ensures
            r@ == self@.key,
    {
        self.key.as_str()
    }
}

proof fn lemma_hex_decode_len(s: Seq<char>)
    ensures
        hex_decode(s).len() == s.len() / 2,
    decreases s.len(),
{
    if s.len() >= 2 {
        lemma_hex_decode_len(s.skip(2));
    }
}

proof fn lemma_hex_decode_index(s: Seq<char>, j: int)
    requires
        0 <= j,
        2 * j + 1 < s.len(),
    ensures
        hex_decode(s).len() > j,
        hex_decode(s)[j] == (hex_val(s[2 * j]) * 16 + hex_val(s[2 * j + 1])) as u8,
    decreases j,
{
    lemma_hex_decode_len(s);
    if j > 0 {
        lemma_hex_decode_index(s.skip(2), j - 1);
    }
}

impl Key {
    /// Generate the keyed hash of the provided notification name under a
    /// parent key.
    pub fn generate(name: &str, hash_key: &Key) -> (r: Key)
        ensures
            r@ == derived_key(hash_key@, name@),
    {
        let data = name.as_bytes_vec();
        Key { bytes: keyed_hash(&hash_key.bytes, data.as_slice()) }
    }

    /// Create a `Key` from a byte array.
    pub fn from_bytes(key: &[u8; 32]) -> (r: Key)
        ensures
            r@ == key@,
    {
        Key { bytes: *key }
    }

    /// Create a `Key` from 64 hexadecimal characters.
    pub fn from_hex(key: &str) -> (r: Key)
        requires
            key@.len() == 64,
            is_hex_seq(key@),
        ensures
            r@ == hex_decode(key@),
    {
        let mut bytes: [u8; 32] = [0; 32];
        let mut i: usize = 0;
        while i < 32
            invariant
                i <= 32,
                key@.len() == 64,
                is_hex_seq(key@),
                forall|j: int|
                    0 <= j < i ==> bytes@[j] == (hex_val(key@[2 * j]) * 16 + hex_val(
                        key@[2 * j + 1],
                    )) as u8,
            decreases 32 - i,
        {
            let hi = key.get_char(2 * i);
            let lo = key.get_char(2 * i + 1);
            assert(is_hex_digit(key@[2 * i as int]) && is_hex_digit(key@[2 * i as int + 1]));
            let v = hex_val_exec(hi) * 16 + hex_val_exec(lo);
            bytes[i] = v;
            i = i + 1;
        }
        proof {
            lemma_hex_decode_len(key@);
            assert forall|j: int| 0 <= j < 32 implies bytes@[j] == hex_decode(key@)[j] by {
                lemma_hex_decode_index(key@, j);
            }
            assert(bytes@ =~= hex_decode(key@));
        }
        Key { bytes }
    }

    /// Return the `Key` as lowercase hexadecimal.
    pub fn to_hex(&self) -> (r: String)
        ensures
            r@ == hex_of(self@),
    {
        bytes_to_hex(self.bytes.as_slice())
    }

    /// Return the `Key` as a byte array.
    pub fn as_bytes(&self) -> (r: &[u8; 32])
        ensures
            r@ == self@,
    {
        &self.bytes
    }
}

/// A notification signed by the client for name `name` under master key
/// `master` validates on the server against the key derived for the same
/// name under the same master. (That validation fails for every other name
/// or master rests on the hash being collision-free, which no proof here
/// claims; the tests exercise it.)
pub proof fn lemma_sign_then_validate(
    text: Seq<char>,
    time: u128,
    name: Seq<char>,
    master: Seq<u8>,
)
    ensures
        valid_for(
            NotificationView {
                message: MessageView { text, time },
                key: mac_hex(derived_key(master, name), text, time),
            },
            derived_key(master, name),
        ),
{
}

/// Signing is deterministic: the MAC depends only on the key bytes, the
/// text and the time.
pub proof fn lemma_sign_deterministic(
    k1: Seq<u8>,
    text1: Seq<char>,
    time1: u128,
    k2: Seq<u8>,
    text2: Seq<char>,
    time2: u128,
)
    requires
        k1 == k2,
        text1 == text2,
        time1 == time2,
    ensures
        mac_hex(k1, text1, time1) == mac_hex(k2, text2, time2),
{
}

} // verus!
