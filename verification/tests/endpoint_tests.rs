use pass_it_on::endpoints::discord::{DiscordConfigFile, DiscordEndpoint, WebhookPayload};
use pass_it_on::endpoints::email::{EmailConfigFile, EmailEndpoint};
use pass_it_on::endpoints::file::{FileConfigFile, FileEndpoint};
use pass_it_on::endpoints::matrix::{MatrixConfigFile, MatrixEndpoint, MatrixRoomConfigFile};
use pass_it_on::notifications::Key;
use pass_it_on::Error;

fn master_key() -> Key {
    let mut bytes = [0u8; 32];
    bytes.copy_from_slice("UVXu7wtbXHWNgAr6rWyPnaZbZK9aYin8".as_bytes());
    Key::from_bytes(&bytes)
}

fn discord_config() -> DiscordConfigFile {
    DiscordConfigFile {
        url: "https://discord.com/api/webhooks/id/token".to_string(),
        username: None,
        avatar_url: None,
        tts: false,
        notifications: vec!["n1".to_string()],
        allowed_mentions: None,
    }
}

#[test]
fn serialize_webhook() {
    let endpoint = DiscordEndpoint::from_config(discord_config()).unwrap();
    let webhook = WebhookPayload::new("some message", &endpoint);

    let result = webhook.to_json();

    println!("{}", result);
}

#[test]
fn webhook_payload_matches_the_wire_shape() {
    let endpoint = DiscordEndpoint::from_config(discord_config()).unwrap();
    let webhook = WebhookPayload::new("some message", &endpoint);
    assert_eq!(
        webhook.to_json(),
        "{\"content\":\"some message\",\"tts\":false,\"allowed_mentions\":{\"parse\":[]}}"
    );
    // A standard JSON parser reads the same fields back.
    let value: serde_json::Value = serde_json::from_str(webhook.to_json().as_str()).unwrap();
    assert_eq!(value["content"].as_str().unwrap(), "some message");
    assert_eq!(value["tts"].as_bool().unwrap(), false);
    assert!(value["allowed_mentions"]["parse"].as_array().unwrap().is_empty());
}

#[test]
fn webhook_payload_with_all_options() {
    let mut cfg = discord_config();
    cfg.username = Some("Bot".to_string());
    cfg.avatar_url = Some("https://example.com/a.png".to_string());
    cfg.tts = true;
    let endpoint = DiscordEndpoint::from_config(cfg).unwrap();
    let webhook = WebhookPayload::new("hi \"there\"", &endpoint);
    assert_eq!(
        webhook.to_json(),
        "{\"content\":\"hi \\\"there\\\"\",\"username\":\"Bot\",\"avatar_url\":\"https://example.com/a.png\",\"tts\":true,\"allowed_mentions\":{\"parse\":[]}}"
    );
}

#[test]
fn discord_configuration_is_validated() {
    let mut cfg = discord_config();
    cfg.url = String::new();
    assert_eq!(
        DiscordEndpoint::from_config(cfg).unwrap_err().to_string(),
        "Invalid Endpoint Configuration: Discord configuration url is blank"
    );
    let mut cfg = discord_config();
    cfg.notifications = Vec::new();
    assert_eq!(
        DiscordEndpoint::from_config(cfg).unwrap_err().to_string(),
        "Invalid Endpoint Configuration: Discord configuration has no notifications setup"
    );
}

fn email_config() -> EmailConfigFile {
    EmailConfigFile {
        hostname: "smtp.example.com".to_string(),
        port: 587,
        username: "user".to_string(),
        password: "pass".to_string(),
        implicit_tls: false,
        allow_invalid_certs: false,
        from: "from@example.com".to_string(),
        to: vec!["to@example.com".to_string()],
        subject: "subject".to_string(),
        notifications: vec!["n1".to_string()],
    }
}

#[test]
fn email_configuration_is_validated() {
    let endpoint = EmailEndpoint::from_config(&email_config()).unwrap();
    assert_eq!(endpoint.hostname(), "smtp.example.com");
    assert_eq!(endpoint.port(), 587);
    assert_eq!(endpoint.to(), ["to@example.com".to_string()]);

    let mut cfg = email_config();
    cfg.port = 65536;
    assert!(matches!(
        EmailEndpoint::from_config(&cfg),
        Err(Error::InvalidPortNumber(65536))
    ));
    // 65535 is a valid u16 port.
    let mut cfg = email_config();
    cfg.port = 65535;
    assert_eq!(EmailEndpoint::from_config(&cfg).unwrap().port(), 65535);
    let mut cfg = email_config();
    cfg.port = 0;
    assert!(matches!(
        EmailEndpoint::from_config(&cfg),
        Err(Error::InvalidPortNumber(0))
    ));
    let mut cfg = email_config();
    cfg.to = Vec::new();
    assert_eq!(
        EmailEndpoint::from_config(&cfg).unwrap_err().to_string(),
        "Invalid Endpoint Configuration: Email configuration has no 'to' email address setup"
    );
    let mut cfg = email_config();
    cfg.notifications = Vec::new();
    assert_eq!(
        EmailEndpoint::from_config(&cfg).unwrap_err().to_string(),
        "Invalid Endpoint Configuration: Email configuration has no notifications setup"
    );
}

#[test]
fn file_configuration_is_validated() {
    let good = FileConfigFile {
        path: "/test_data/file_endpoint.txt".to_string(),
        notifications: vec!["notification1".to_string(), "notification2".to_string()],
    };
    let endpoint = FileEndpoint::from_config(&good).unwrap();
    assert_eq!(endpoint.path(), "/test_data/file_endpoint.txt");
    assert_eq!(endpoint.notifications().len(), 2);

    let blank = FileConfigFile { path: String::new(), notifications: vec!["n".to_string()] };
    assert_eq!(
        FileEndpoint::from_config(&blank).unwrap_err().to_string(),
        "Invalid Endpoint Configuration: File configuration path is blank"
    );
    let none = FileConfigFile {
        path: "/test_data/file_endpoint.txt".to_string(),
        notifications: Vec::new(),
    };
    assert_eq!(
        FileEndpoint::from_config(&none).unwrap_err().to_string(),
        "Invalid Endpoint Configuration: File configuration has no notifications setup"
    );
}

#[test]
fn file_endpoint_generates_one_key_per_notification() {
    let master = master_key();
    let endpoint = FileEndpoint::new("f.txt", &["a".to_string(), "b".to_string()]);
    let sets = endpoint.generate_keys(&master);
    assert_eq!(sets.len(), 1);
    assert_eq!(sets[0].sub_name(), "");
    let keys = sets[0].keys();
    assert_eq!(keys.len(), 2);
    assert_eq!(keys[0].to_hex(), Key::generate("a", &master).to_hex());
    assert_eq!(keys[1].to_hex(), Key::generate("b", &master).to_hex());
}

fn matrix_config() -> MatrixConfigFile {
    MatrixConfigFile {
        home_server: "example.com".to_string(),
        username: "test1".to_string(),
        password: "password".to_string(),
        session_store_path: "/store".to_string(),
        session_store_password: "storepass".to_string(),
        room: vec![
            MatrixRoomConfigFile {
                room: "#matrix-room:example.com".to_string(),
                notifications: vec!["notification_id1".to_string()],
            },
            MatrixRoomConfigFile {
                room: "#another-room:example.com".to_string(),
                notifications: vec!["notification_id2".to_string()],
            },
        ],
    }
}

#[test]
fn matrix_configuration_is_validated() {
    let endpoint = MatrixEndpoint::from_config(&matrix_config()).unwrap();
    assert_eq!(endpoint.home_server(), "example.com");
    assert_eq!(endpoint.username(), "test1");
    assert_eq!(endpoint.rooms().len(), 2);

    let mut cfg = matrix_config();
    cfg.home_server = String::new();
    assert_eq!(
        MatrixEndpoint::from_config(&cfg).unwrap_err().to_string(),
        "Invalid Endpoint Configuration: Matrix configuration home_server is blank"
    );
    let mut cfg = matrix_config();
    cfg.username = String::new();
    assert_eq!(
        MatrixEndpoint::from_config(&cfg).unwrap_err().to_string(),
        "Invalid Endpoint Configuration: Matrix configuration username is blank"
    );
    let mut cfg = matrix_config();
    cfg.room = Vec::new();
    assert_eq!(
        MatrixEndpoint::from_config(&cfg).unwrap_err().to_string(),
        "Invalid Endpoint Configuration: Matrix configuration has no rooms setup"
    );
}

#[test]
fn matrix_rooms_with_the_same_name_are_merged() {
    let mut cfg = matrix_config();
    cfg.room = vec![
        MatrixRoomConfigFile {
            room: "#r:example.com".to_string(),
            notifications: vec!["a".to_string(), "b".to_string()],
        },
        MatrixRoomConfigFile {
            room: "#r:example.com".to_string(),
            notifications: vec!["b".to_string(), "c".to_string()],
        },
    ];
    let endpoint = MatrixEndpoint::from_config(&cfg).unwrap();
    assert_eq!(endpoint.rooms().len(), 1);
    let room = &endpoint.rooms()[0];
    assert_eq!(room.room(), "#r:example.com");
    let mut names: Vec<&str> = room.notifications().iter().map(|n| n.as_str()).collect();
    names.sort();
    assert_eq!(names, ["a", "b", "c"]);
}

#[test]
fn matrix_room_notification_lists_are_duplicate_free() {
    let mut cfg = matrix_config();
    cfg.room = vec![MatrixRoomConfigFile {
        room: "#r:example.com".to_string(),
        notifications: vec!["a".to_string(), "a".to_string(), "b".to_string()],
    }];
    let endpoint = MatrixEndpoint::from_config(&cfg).unwrap();
    assert_eq!(endpoint.rooms().len(), 1);
    let mut names: Vec<&str> =
        endpoint.rooms()[0].notifications().iter().map(|n| n.as_str()).collect();
    names.sort();
    assert_eq!(names, ["a", "b"]);
}

#[test]
fn matrix_generates_one_key_set_per_room() {
    let master = master_key();
    let endpoint = MatrixEndpoint::from_config(&matrix_config()).unwrap();
    let sets = endpoint.generate_keys(&master);
    assert_eq!(sets.len(), 2);
    assert_eq!(sets[0].sub_name(), "#matrix-room:example.com");
    assert_eq!(sets[1].sub_name(), "#another-room:example.com");
    assert_eq!(
        sets[0].keys()[0].to_hex(),
        Key::generate("notification_id1", &master).to_hex()
    );
}
