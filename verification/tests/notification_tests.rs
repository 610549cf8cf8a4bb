use pass_it_on::notifications::{Key, Message, Notification};

const MASTER: &str = "UVXu7wtbXHWNgAr6rWyPnaZbZK9aYin8";

fn master_key() -> Key {
    let mut bytes = [0u8; 32];
    bytes.copy_from_slice(MASTER.as_bytes());
    Key::from_bytes(&bytes)
}

#[test]
fn sign_verify_happy_path() {
    let master = master_key();
    let name_key = Key::generate("test1", &master);
    let message = Message::with_time("hello", 1_000_000_000);
    let notification = Notification::new(message, &name_key);

    // The MAC must be the keyed BLAKE3 hash of text || decimal time under
    // the key derived for the notification name, rendered as lowercase hex.
    let expected_name_key = blake3::keyed_hash(
        <&[u8; 32]>::try_from(MASTER.as_bytes()).unwrap(),
        "test1".as_bytes(),
    );
    let expected_mac = blake3::keyed_hash(expected_name_key.as_bytes(), "hello1000000000".as_bytes());
    assert_eq!(name_key.as_bytes(), expected_name_key.as_bytes());
    assert_eq!(notification.key(), expected_mac.to_hex().as_str());

    // The server accepts it under the same name and rejects another name.
    assert!(notification.validate(&Key::generate("test1", &master)));
    assert!(!notification.validate(&Key::generate("test2", &master)));

    // A different master key rejects it too.
    let mut other = [0u8; 32];
    other.copy_from_slice("UVXu7wtbXHWNgAr6rWyPnaZbZK9aYin9".as_bytes());
    let other_master = Key::from_bytes(&other);
    assert!(!notification.validate(&Key::generate("test1", &other_master)));
}

#[test]
fn signing_is_deterministic() {
    let master = master_key();
    let name_key = Key::generate("alerts", &master);
    let first = Notification::new(Message::with_time("same text", 42), &name_key);
    let second = Notification::new(Message::with_time("same text", 42), &name_key);
    assert_eq!(first.key(), second.key());
}

#[test]
fn altering_text_or_time_changes_the_mac() {
    let master = master_key();
    let name_key = Key::generate("alerts", &master);
    let base = Notification::new(Message::with_time("same text", 42), &name_key);
    let other_text = Notification::new(Message::with_time("same texu", 42), &name_key);
    let other_time = Notification::new(Message::with_time("same text", 43), &name_key);
    assert_ne!(base.key(), other_text.key());
    assert_ne!(base.key(), other_time.key());
}

#[test]
fn mac_is_64_lowercase_hex_characters() {
    let master = master_key();
    let name_key = Key::generate("shape", &master);
    let notification = Notification::new(Message::with_time("any text", 3), &name_key);
    assert_eq!(notification.key().len(), 64);
    assert!(notification
        .key()
        .chars()
        .all(|c| c.is_ascii_hexdigit() && !c.is_ascii_uppercase()));
}

#[test]
fn key_hex_round_trip() {
    let master = master_key();
    let key = Key::generate("round", &master);
    let hex = key.to_hex();
    assert_eq!(hex.len(), 64);
    let back = Key::from_hex(hex.as_str());
    assert_eq!(back.as_bytes(), key.as_bytes());
}

#[test]
fn message_accessors() {
    let message = Message::with_time("body", 7);
    assert_eq!(message.text(), "body");
    assert_eq!(message.time(), 7);
    let ready = message.to_client_ready_message("chan");
    assert_eq!(ready.notification_name(), "chan");
    assert_eq!(ready.message().text(), "body");
}

#[test]
fn client_ready_message_signs_like_the_server_expects() {
    let master = master_key();
    let ready = Message::with_time("hi", 5).to_client_ready_message("n1");
    let notification = ready.to_notification(&master);
    assert!(notification.validate(&Key::generate("n1", &master)));
    assert!(!notification.validate(&Key::generate("n2", &master)));
}

#[test]
fn message_new_uses_the_clock() {
    let m = Message::new("stamped");
    assert_eq!(m.text(), "stamped");
    assert!(m.time() > 0);
}
