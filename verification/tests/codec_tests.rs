use pass_it_on::notifications::{Key, Message, Notification};

const MASTER: &str = "UVXu7wtbXHWNgAr6rWyPnaZbZK9aYin8";

fn signed(text: &str, time: u128, name: &str) -> Notification {
    let mut bytes = [0u8; 32];
    bytes.copy_from_slice(MASTER.as_bytes());
    let master = Key::from_bytes(&bytes);
    Notification::new(Message::with_time(text, time), &Key::generate(name, &master))
}

#[test]
fn round_trip_json() {
    let original = signed("hello", 1_000_000_000, "test1");
    let json = original.to_json().unwrap();
    let decoded = Notification::from_json(json.as_str()).unwrap();
    assert_eq!(decoded.message().text(), original.message().text());
    assert_eq!(decoded.message().time(), original.message().time());
    assert_eq!(decoded.key(), original.key());
    assert_eq!(decoded, original);
}

#[test]
fn encoded_form_is_exact() {
    let n = signed("hello", 1_000_000_000, "test1");
    let json = n.to_json().unwrap();
    let expected = format!(
        "{{\"message\":{{\"text\":\"hello\",\"time\":1000000000}},\"key\":\"{}\"}}",
        n.key()
    );
    assert_eq!(json, expected);
}

#[test]
fn encoder_agrees_with_a_standard_json_parser() {
    let n = signed("a \"quoted\" line\nwith\\slashes\tand \u{1}control", 7, "x");
    let json = n.to_json().unwrap();
    let value: serde_json::Value = serde_json::from_str(json.as_str()).unwrap();
    assert_eq!(
        value["message"]["text"].as_str().unwrap(),
        "a \"quoted\" line\nwith\\slashes\tand \u{1}control"
    );
    assert_eq!(value["message"]["time"].as_u64().unwrap(), 7);
    assert_eq!(value["key"].as_str().unwrap(), n.key());
}

#[test]
fn decoder_accepts_standard_json_output() {
    // Whitespace and the other member order are accepted.
    let n = signed("payload", 12, "x");
    let reordered = format!(
        " {{ \"key\" : \"{}\" , \"message\" : {{ \"time\" : 12 , \"text\" : \"payload\" }} }} ",
        n.key()
    );
    let decoded = Notification::from_json(reordered.as_str()).unwrap();
    assert_eq!(decoded, n);
}

#[test]
fn escape_round_trip() {
    let tricky = "quotes \" backslash \\ slash / tab \t newline \n cr \r nul \u{0} bell \u{7} high \u{263a} ünïcode";
    let n = signed(tricky, u128::MAX, "esc");
    let decoded = Notification::from_json(n.to_json().unwrap().as_str()).unwrap();
    assert_eq!(decoded.message().text(), tricky);
    assert_eq!(decoded.message().time(), u128::MAX);
}

#[test]
fn multi_frame_decode_in_order() {
    let a = signed("first", 1, "n");
    let b = signed("second", 2, "n");
    let c = signed("third", 3, "n");
    let payload = format!(
        "{}{}{}",
        a.to_json().unwrap(),
        b.to_json().unwrap(),
        c.to_json().unwrap()
    );
    let decoded = Notification::from_json_multi(payload.as_str());
    assert_eq!(decoded.len(), 3);
    assert_eq!(decoded[0].as_ref().unwrap(), &a);
    assert_eq!(decoded[1].as_ref().unwrap(), &b);
    assert_eq!(decoded[2].as_ref().unwrap(), &c);
}

#[test]
fn multi_frame_decode_skips_a_malformed_object() {
    let a = signed("first", 1, "n");
    let c = signed("third", 3, "n");
    let payload = format!(
        "{}{}{}",
        a.to_json().unwrap(),
        "{\"message\":bad}",
        c.to_json().unwrap()
    );
    let decoded = Notification::from_json_multi(payload.as_str());
    assert_eq!(decoded.len(), 3);
    assert!(decoded[0].is_ok());
    assert!(decoded[1].is_err());
    assert!(decoded[2].is_ok());
    assert_eq!(decoded[0].as_ref().unwrap(), &a);
    assert_eq!(decoded[2].as_ref().unwrap(), &c);
}

#[test]
fn single_decode_rejects_bad_payloads() {
    let n = signed("x", 1, "n");
    let good = n.to_json().unwrap();
    assert!(Notification::from_json("").is_err());
    assert!(Notification::from_json("   ").is_err());
    assert!(Notification::from_json("{}").is_err());
    assert!(Notification::from_json(format!("{}{}", good, good).as_str()).is_err());
    assert!(Notification::from_json(format!("{} trailing", good).as_str()).is_err());
    // A leading zero in the time is not a JSON number.
    assert!(
        Notification::from_json("{\"message\":{\"text\":\"a\",\"time\":01},\"key\":\"ab\"}")
            .is_err()
    );
    // Unknown and duplicate members are rejected.
    assert!(Notification::from_json(
        "{\"message\":{\"text\":\"a\",\"time\":1,\"extra\":2},\"key\":\"ab\"}"
    )
    .is_err());
    assert!(Notification::from_json(
        "{\"message\":{\"text\":\"a\",\"time\":1,\"time\":2},\"key\":\"ab\"}"
    )
    .is_err());
}

#[test]
fn unbalanced_tail_yields_a_final_error() {
    let a = signed("first", 1, "n");
    let payload = format!("{}{}", a.to_json().unwrap(), "{\"never\":\"closed\"");
    let decoded = Notification::from_json_multi(payload.as_str());
    assert_eq!(decoded.len(), 2);
    assert!(decoded[0].is_ok());
    assert!(decoded[1].is_err());
}

#[test]
fn time_beyond_u128_is_rejected() {
    // One digit beyond u128::MAX.
    let too_big = "{\"message\":{\"text\":\"a\",\"time\":340282366920938463463374607431768211456},\"key\":\"ab\"}";
    assert!(Notification::from_json(too_big).is_err());
    let max = format!(
        "{{\"message\":{{\"text\":\"a\",\"time\":{}}},\"key\":\"ab\"}}",
        u128::MAX
    );
    assert_eq!(
        Notification::from_json(max.as_str()).unwrap().message().time(),
        u128::MAX
    );
}
