use pass_it_on::endpoints::file::FileEndpoint;
use pass_it_on::endpoints::matrix::{MatrixEndpoint, MatrixRoom};
use pass_it_on::notifications::{Key, Message, Notification};
use pass_it_on::server::{route_frame, route_notification};

const MASTER: &str = "UVXu7wtbXHWNgAr6rWyPnaZbZK9aYin8";

fn master_key() -> Key {
    let mut bytes = [0u8; 32];
    bytes.copy_from_slice(MASTER.as_bytes());
    Key::from_bytes(&bytes)
}

fn signed(text: &str, time: u128, name: &str) -> Notification {
    Notification::new(
        Message::with_time(text, time),
        &Key::generate(name, &master_key()),
    )
}

#[test]
fn endpoint_fan_out() {
    let master = master_key();
    let e1 = FileEndpoint::new("one.txt", &["a".to_string(), "b".to_string()]);
    let e2 = FileEndpoint::new("two.txt", &["b".to_string(), "c".to_string()]);
    let k1 = e1.generate_keys(&master);
    let k2 = e2.generate_keys(&master);

    let for_b = signed("to b", 1, "b");
    assert_eq!(route_notification(&for_b, &k1).len(), 1);
    assert_eq!(route_notification(&for_b, &k2).len(), 1);

    let for_a = signed("to a", 2, "a");
    assert_eq!(route_notification(&for_a, &k1).len(), 1);
    assert_eq!(route_notification(&for_a, &k2).len(), 0);

    let for_d = signed("to d", 3, "d");
    assert_eq!(route_notification(&for_d, &k1).len(), 0);
    assert_eq!(route_notification(&for_d, &k2).len(), 0);

    let routed = route_notification(&for_b, &k1);
    assert_eq!(routed[0].sub_name(), "");
    assert_eq!(routed[0].message().text(), "to b");
}

#[test]
fn matrix_routing() {
    let master = master_key();
    let endpoint = MatrixEndpoint::new(
        "ex.com",
        "user",
        "pass",
        "/store",
        "storepass",
        vec![
            MatrixRoom::new("#r1:ex.com".to_string(), vec!["n1".to_string()]),
            MatrixRoom::new("#r2:ex.com".to_string(), vec!["n2".to_string()]),
        ],
    );
    let bindings = endpoint.generate_keys(&master);

    let for_n1 = signed("to room one", 9, "n1");
    let routed = route_notification(&for_n1, &bindings);
    assert_eq!(routed.len(), 1);
    assert_eq!(routed[0].sub_name(), "#r1:ex.com");
    assert_eq!(routed[0].message().text(), "to room one");
}

#[test]
fn frames_reach_the_endpoint_bus_past_a_malformed_object() {
    let master = master_key();
    let endpoint = FileEndpoint::new("log.txt", &["n".to_string()]);
    let endpoints = vec![endpoint.generate_keys(&master)];

    let a = signed("first", 1, "n");
    let c = signed("third", 3, "n");
    let payload = format!(
        "{}{}{}",
        a.to_json().unwrap(),
        "{\"message\":bad}",
        c.to_json().unwrap()
    );
    let buses = route_frame(payload.as_str(), &endpoints);
    assert_eq!(buses.len(), 1);
    assert_eq!(buses[0].len(), 2);
    assert_eq!(buses[0][0].message().text(), "first");
    assert_eq!(buses[0][1].message().text(), "third");
}

#[test]
fn unmatched_notifications_are_dropped_silently() {
    let master = master_key();
    let endpoint = FileEndpoint::new("log.txt", &["wanted".to_string()]);
    let endpoints = vec![endpoint.generate_keys(&master)];
    let stray = signed("noise", 1, "unwanted");
    let buses = route_frame(stray.to_json().unwrap().as_str(), &endpoints);
    assert_eq!(buses.len(), 1);
    assert!(buses[0].is_empty());
}

#[test]
fn validator_preserves_frame_order_per_endpoint() {
    let master = master_key();
    let endpoint = FileEndpoint::new("log.txt", &["n".to_string()]);
    let endpoints = vec![endpoint.generate_keys(&master)];
    let mut payload = String::new();
    for i in 0..5u128 {
        payload.push_str(
            signed(&format!("msg{}", i), i, "n").to_json().unwrap().as_str(),
        );
    }
    let buses = route_frame(payload.as_str(), &endpoints);
    assert_eq!(buses[0].len(), 5);
    for i in 0..5usize {
        assert_eq!(buses[0][i].message().text(), format!("msg{}", i));
    }
}
