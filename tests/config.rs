use cloud_node_discovery::{parse_config, DiscoveryError};

#[test]
fn test_parse_config() {
    let config = "region=us-east-1,tag_key=foo,tag_value=bar";
    let result = parse_config(config).unwrap();

    assert_eq!(result.get("region"), Some(&"us-east-1".to_string()));
    assert_eq!(result.get("tag_key"), Some(&"foo".to_string()));
    assert_eq!(result.get("tag_value"), Some(&"bar".to_string()));
}

#[test]
fn test_parse_config_errors() {
    // Missing value
    assert!(parse_config("key=").is_err());

    // Missing key
    assert!(parse_config("=value").is_err());

    // Invalid format
    assert!(parse_config("key=value=extra").is_err());

    // Duplicate key
    assert!(parse_config("key=value1,key=value2").is_err());
}

fn config_error(text: &str) -> String {
    match parse_config(text) {
        Err(DiscoveryError::ConfigError(m)) => m,
        other => panic!("expected a configuration error, got {:?}", other),
    }
}

#[test]
fn parse_error_messages() {
    assert_eq!(config_error("key="), "Empty value in pair: key=");
    assert_eq!(config_error("=value"), "Empty key in pair: =value");
    assert_eq!(config_error("key"), "Missing value in pair: key");
    assert_eq!(config_error("key=value=extra"), "Invalid format in pair: key=value=extra");
    assert_eq!(config_error("key=value1,key=value2"), "Duplicate key: key");
}

#[test]
fn parse_empty_text_fails() {
    assert_eq!(config_error(""), "Missing value in pair: ");
}

#[test]
fn parse_reports_first_bad_piece() {
    assert_eq!(config_error("a=b,c,d=e=f"), "Missing value in pair: c");
    assert_eq!(config_error("a=b,d=e=f,c"), "Invalid format in pair: d=e=f");
}

#[test]
fn parse_trims_white_space() {
    let m = parse_config("  a = 1 ,\tb=\u{3000}two words ").unwrap();
    assert_eq!(m.len(), 2);
    assert_eq!(m.get("a"), Some(&"1".to_string()));
    assert_eq!(m.get("b"), Some(&"two words".to_string()));
    assert_eq!(m.get(" a "), None);
}

#[test]
fn parse_duplicate_after_trim() {
    assert_eq!(config_error("a=1, a =2"), "Duplicate key: a");
}

#[test]
fn parse_blank_value_after_trim() {
    assert_eq!(config_error("a=   "), "Empty value in pair: a=   ");
    assert_eq!(config_error("a=1,,b=2"), "Missing value in pair: ");
}

#[test]
fn round_trip_in_other_order() {
    let m = parse_config("region=us-east-1,tag_key=foo,tag_value=bar").unwrap();
    let again = parse_config("tag_value=bar,region=us-east-1,tag_key=foo").unwrap();
    assert_eq!(again.len(), m.len());
    for key in ["region", "tag_key", "tag_value"] {
        assert_eq!(again.get(key), m.get(key));
    }
}
