use vroomgine::config::{parse_port, Config, ConfigError};

#[test]
fn port_defaults_when_unset() {
    let c = Config::from_values(Some("postgres://db".to_string()), None).unwrap();
    assert_eq!(c.database_url, "postgres://db");
    assert_eq!(c.server_port, 3000);
    assert_eq!(c.overpass_api_url, "https://overpass-api.de/api/interpreter");
    assert_eq!(c.overpass_timeout, 50);
}

#[test]
fn port_is_read_when_set() {
    let c = Config::from_values(Some("x".to_string()), Some("8080".to_string())).unwrap();
    assert_eq!(c.server_port, 8080);
}

#[test]
fn missing_database_url_is_rejected() {
    assert_eq!(
        Config::from_values(None, Some("8080".to_string())).unwrap_err(),
        ConfigError::MissingDatabaseUrl
    );
}

#[test]
fn invalid_port_is_rejected() {
    assert_eq!(
        Config::from_values(Some("x".to_string()), Some("80a".to_string())).unwrap_err(),
        ConfigError::InvalidServerPort
    );
}

#[test]
fn port_parsing_follows_integer_syntax() {
    assert_eq!(parse_port("0"), Some(0));
    assert_eq!(parse_port("+443"), Some(443));
    assert_eq!(parse_port("65535"), Some(65535));
    assert_eq!(parse_port("0065535"), Some(65535));
    assert_eq!(parse_port("65536"), None);
    assert_eq!(parse_port("99999999999"), None);
    assert_eq!(parse_port(""), None);
    assert_eq!(parse_port("+"), None);
    assert_eq!(parse_port("-1"), None);
    assert_eq!(parse_port(" 80"), None);
    for text in ["0", "+443", "65535", "65536", "", "+", "-1", " 80", "12x"] {
        assert_eq!(parse_port(text), text.parse::<u16>().ok(), "{:?}", text);
    }
}
