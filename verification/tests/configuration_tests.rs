use pass_it_on::configuration::valid_key_length;
use pass_it_on::endpoints::file::FileEndpoint;
use pass_it_on::endpoints::matrix::validate_room;
use pass_it_on::endpoints::EndpointKind;
use pass_it_on::interfaces::http::{HttpSocketConfigFile, HttpSocketInterface};
use pass_it_on::interfaces::pipe::{PipeConfigFile, PipeInterface};
use pass_it_on::interfaces::InterfaceKind;
use pass_it_on::{ClientConfiguration, Error, ServerConfiguration};

fn an_interface() -> InterfaceKind {
    InterfaceKind::Pipe(PipeInterface::new("/tmp/relay.fifo", false, false, false, false))
}

fn an_endpoint() -> EndpointKind {
    EndpointKind::File(FileEndpoint::new("out.txt", &["n1".to_string()]))
}

#[test]
fn client_configuration_tests_interface_not_defined() {
    let config = ClientConfiguration::new("test key", Vec::new());

    assert_eq!(
        config.unwrap_err().to_string(),
        Error::MissingInterface.to_string()
    )
}

#[test]
fn server_configuration_tests_interface_not_defined() {
    let config = ServerConfiguration::new("test key", Vec::new(), Vec::new());

    assert_eq!(
        config.unwrap_err().to_string(),
        Error::MissingInterface.to_string()
    )
}

#[test]
fn endpoint_not_defined() {
    let notifications = ["test1".to_string(), "test2".to_string()];
    let endpoint = EndpointKind::File(FileEndpoint::new("path", notifications.as_ref()));
    let config = ServerConfiguration::new("test key", Vec::new(), vec![endpoint]);

    assert_eq!(
        config.unwrap_err().to_string(),
        Error::MissingInterface.to_string()
    )
}

#[test]
fn endpoint_missing_with_an_interface_present() {
    let config = ServerConfiguration::new(
        "UVXu7wtbXHWNgAr6rWyPnaZbZK9aYin8",
        vec![an_interface()],
        Vec::new(),
    );
    assert_eq!(config.unwrap_err(), Error::MissingEndpoint);
}

#[test]
fn key_length_31_and_33_bytes_fail() {
    let key31 = "a".repeat(31);
    let key33 = "a".repeat(33);
    let e31 = ServerConfiguration::new(key31.as_str(), vec![an_interface()], vec![an_endpoint()])
        .unwrap_err();
    assert!(matches!(e31, Error::InvalidKeyLength(31)));
    let e33 = ClientConfiguration::new(key33.as_str(), vec![an_interface()]).unwrap_err();
    assert!(matches!(e33, Error::InvalidKeyLength(33)));
    let ok = ServerConfiguration::new(
        "UVXu7wtbXHWNgAr6rWyPnaZbZK9aYin8",
        vec![an_interface()],
        vec![an_endpoint()],
    );
    assert!(ok.is_ok());
}

#[test]
fn valid_key_length_checks_bytes_not_characters() {
    assert!(valid_key_length("UVXu7wtbXHWNgAr6rWyPnaZbZK9aYin8").is_ok());
    assert!(matches!(
        valid_key_length("short"),
        Err(Error::InvalidKeyLength(5))
    ));
}

#[test]
fn port_0_and_65536_are_invalid() {
    let mut cfg = HttpSocketConfigFile {
        host: "http://localhost".to_string(),
        tls: false,
        port: 0,
        tls_cert_path: None,
        tls_key_path: None,
    };
    assert!(matches!(
        HttpSocketInterface::from_config(&cfg),
        Err(Error::InvalidPortNumber(0))
    ));
    cfg.port = 65536;
    assert!(matches!(
        HttpSocketInterface::from_config(&cfg),
        Err(Error::InvalidPortNumber(65536))
    ));
    // 65535 is a valid u16 port.
    cfg.port = 65535;
    assert_eq!(HttpSocketInterface::from_config(&cfg).unwrap().port(), 65535);
    cfg.port = 8080;
    let interface = HttpSocketInterface::from_config(&cfg).unwrap();
    assert_eq!(interface.port(), 8080);
    assert_eq!(interface.host(), "http://localhost");
    assert!(!interface.tls());
}

#[test]
fn host_scheme_follows_the_tls_flag() {
    let mut cfg = HttpSocketConfigFile {
        host: "http://example.com".to_string(),
        tls: true,
        port: 8443,
        tls_cert_path: Some("/certs/cert.pem".to_string()),
        tls_key_path: Some("/certs/key.pem".to_string()),
    };
    assert_eq!(
        HttpSocketInterface::from_config(&cfg).unwrap().host(),
        "https://example.com"
    );
    cfg.tls = false;
    assert_eq!(
        HttpSocketInterface::from_config(&cfg).unwrap().host(),
        "http://example.com"
    );
    cfg.host = "https://example.com".to_string();
    assert_eq!(
        HttpSocketInterface::from_config(&cfg).unwrap().host(),
        "http://example.com"
    );
    // A bare host gains the scheme the flag implies.
    cfg.host = "127.0.0.1".to_string();
    assert_eq!(
        HttpSocketInterface::from_config(&cfg).unwrap().host(),
        "http://127.0.0.1"
    );
    let built = HttpSocketInterface::new("example.com", 8443, true, None, None);
    assert_eq!(built.host(), "https://example.com");
}

#[test]
fn tls_listener_requires_cert_and_key() {
    let cfg = HttpSocketConfigFile {
        host: "example.com".to_string(),
        tls: true,
        port: 8443,
        tls_cert_path: Some("/certs/cert.pem".to_string()),
        tls_key_path: None,
    };
    let interface = HttpSocketInterface::from_config(&cfg).unwrap();
    let err = interface.check_receive_config().unwrap_err();
    assert_eq!(
        err.to_string(),
        "Invalid Interface Configuration: Both tls_cert_path and tls_key_path must be provided for a TLS server"
    );
    let full = HttpSocketInterface::new(
        "example.com",
        8443,
        true,
        Some("/certs/cert.pem".to_string()),
        Some("/certs/key.pem".to_string()),
    );
    assert!(full.check_receive_config().is_ok());
}

#[test]
fn pipe_configuration_rejects_an_empty_path() {
    let cfg = PipeConfigFile {
        path: String::new(),
        group_read_permission: None,
        group_write_permission: None,
        other_read_permission: None,
        other_write_permission: None,
    };
    let err = PipeInterface::from_config(&cfg).unwrap_err();
    assert_eq!(
        err.to_string(),
        "Invalid Interface Configuration: Pipe path is empty"
    );
}

#[test]
fn pipe_mode_bits_follow_the_permissions() {
    assert_eq!(
        PipeInterface::new("/p", false, false, false, false).mode_bits(),
        0o700
    );
    assert_eq!(
        PipeInterface::new("/p", true, false, false, false).mode_bits(),
        0o740
    );
    assert_eq!(
        PipeInterface::new("/p", true, true, true, true).mode_bits(),
        0o766
    );
    let from_cfg = PipeInterface::from_config(&PipeConfigFile {
        path: "/tmp/x".to_string(),
        group_read_permission: Some(true),
        group_write_permission: None,
        other_read_permission: Some(false),
        other_write_permission: Some(true),
    })
    .unwrap();
    assert!(from_cfg.group_read());
    assert!(!from_cfg.group_write());
    assert!(!from_cfg.other_read());
    assert!(from_cfg.other_write());
    assert_eq!(from_cfg.path(), "/tmp/x");
}

#[test]
fn room_without_colon_gets_the_default_server() {
    assert_eq!(validate_room("#r1", "ex.com").unwrap(), "#r1:ex.com");
    assert_eq!(validate_room("!id:other.org", "ex.com").unwrap(), "!id:other.org");
    assert_eq!(validate_room("  #padded:ex.com  ", "ex.com").unwrap(), "#padded:ex.com");
}

#[test]
fn room_without_marker_is_rejected() {
    assert_eq!(
        validate_room("room", "ex.com").unwrap_err(),
        Error::InvalidMatrixRoomIdentifier
    );
    assert_eq!(
        validate_room("", "ex.com").unwrap_err(),
        Error::InvalidMatrixRoomIdentifier
    );
    assert_eq!(
        validate_room("   ", "ex.com").unwrap_err(),
        Error::InvalidMatrixRoomIdentifier
    );
}

#[test]
fn server_configuration_exposes_its_parts() {
    let config = ServerConfiguration::new(
        "UVXu7wtbXHWNgAr6rWyPnaZbZK9aYin8",
        vec![an_interface()],
        vec![an_endpoint()],
    )
    .unwrap();
    assert_eq!(config.interfaces().len(), 1);
    assert_eq!(config.endpoints().len(), 1);
    assert_eq!(
        config.key().as_bytes(),
        <&[u8; 32]>::try_from("UVXu7wtbXHWNgAr6rWyPnaZbZK9aYin8".as_bytes()).unwrap()
    );
    let keys = config.endpoint_keys();
    assert_eq!(keys.len(), 1);
    assert_eq!(keys[0].len(), 1);
    assert_eq!(keys[0][0].sub_name(), "");
    assert_eq!(keys[0][0].keys().len(), 1);
}
