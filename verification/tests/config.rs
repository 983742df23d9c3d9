use tidewave_core::config::{default_port, parse_error, validate_https_config, Config};

#[test]
fn test_validate_https_config_all_present() {
    let config = Config {
        https_port: Some(9833),
        https_cert_path: Some("/path/to/cert.pem".to_string()),
        https_key_path: Some("/path/to/key.pem".to_string()),
        ..Default::default()
    };
    assert!(validate_https_config(&config).is_ok());
}

#[test]
fn test_validate_https_config_all_absent() {
    let config = Config::default();
    assert!(validate_https_config(&config).is_ok());
}

#[test]
fn test_validate_https_missing_config() {
    let config = Config {
        https_port: Some(9833),
        https_cert_path: Some("/path/to/cert.pem".to_string()),
        ..Default::default()
    };
    assert!(validate_https_config(&config).is_err());
}

#[test]
fn defaults_are_plain_http_on_the_usual_port() {
    let config = Config::default();
    assert_eq!(default_port(), 9832);
    assert_eq!(config.port, 9832);
    assert!(!config.debug);
    assert!(!config.allow_remote_access);
    assert_eq!(config.https_port, None);
    assert!(config.env.is_empty());
    assert!(config.allowed_origins.is_empty());
}

#[test]
fn each_missing_https_setting_is_refused() {
    for present in 1..7u8 {
        let config = Config {
            https_port: if present & 1 != 0 { Some(9833) } else { None },
            https_cert_path: if present & 2 != 0 { Some("c".to_string()) } else { None },
            https_key_path: if present & 4 != 0 { Some("k".to_string()) } else { None },
            ..Default::default()
        };
        assert!(validate_https_config(&config).is_err());
    }
}

#[test]
fn parse_errors_show_the_expected_format() {
    let text = parse_error("bad port");
    assert!(text.contains("bad port"));
    assert!(text.contains("port = 9832"));
}
