use cloud_node_discovery::{Discovery, DiscoveryBuilder, DiscoveryError, ProviderSettings};

#[test]
fn unknown_provider_is_named() {
    match Discovery::new("unknown-provider", "a=b") {
        Err(DiscoveryError::UnknownProvider(name)) => assert_eq!(name, "unknown-provider"),
        other => panic!("unexpected {:?}", other),
    }
}

#[test]
fn config_is_parsed_before_the_name_is_looked_up() {
    match Discovery::new("unknown-provider", "a=") {
        Err(DiscoveryError::ConfigError(m)) => assert_eq!(m, "Empty value in pair: a="),
        other => panic!("unexpected {:?}", other),
    }
}

#[test]
fn aws_without_region_is_a_config_error() {
    match Discovery::new("aws", "tag_key=foo,tag_value=bar") {
        Err(DiscoveryError::ConfigError(m)) => assert_eq!(m, "region is required"),
        other => panic!("unexpected {:?}", other),
    }
}

#[test]
fn upcloud_without_label_value_is_a_config_error() {
    match Discovery::new("upcloud", "zone=fi-hel1,label_key=role") {
        Err(DiscoveryError::ConfigError(m)) => assert_eq!(m, "label_value is required"),
        other => panic!("unexpected {:?}", other),
    }
}

#[test]
fn aws_settings_are_bound() {
    let d = Discovery::new("aws", "region=us-east-1,tag_key=foo,tag_value=bar").unwrap();
    match d.provider() {
        ProviderSettings::Aws(p) => {
            assert_eq!(p.region, "us-east-1");
            assert_eq!(p.tag_key, "foo");
            assert_eq!(p.tag_value, "bar");
            assert_eq!(p.tag_filter_name(), "tag:foo");
        }
        other => panic!("unexpected {:?}", other),
    }
}

#[test]
fn upcloud_settings_are_bound() {
    let d = Discovery::new("upcloud", "zone=fi-hel1,label_key=role,label_value=db").unwrap();
    match d.provider() {
        ProviderSettings::Upcloud(p) => {
            assert_eq!(p.zone, "fi-hel1");
            assert_eq!(p.label_key, "role");
            assert_eq!(p.label_value, "db");
        }
        other => panic!("unexpected {:?}", other),
    }
}

#[test]
fn builder_serialises_in_insertion_order() {
    let b = DiscoveryBuilder::new("aws")
        .with_config("region", "eu-west-1")
        .with_config("tag_key", "foo")
        .with_config("region", "us-east-1");
    assert_eq!(b.config_to_string(), "region=us-east-1,tag_key=foo");
}

#[test]
fn builder_empty_config_fails() {
    let b = DiscoveryBuilder::new("aws");
    assert_eq!(b.config_to_string(), "");
    match b.build() {
        Err(DiscoveryError::ConfigError(m)) => assert_eq!(m, "Missing value in pair: "),
        other => panic!("unexpected {:?}", other),
    }
}

#[test]
fn builder_builds_through_the_string_form() {
    let d = DiscoveryBuilder::new("upcloud")
        .with_config("zone", "de-fra1")
        .with_config("label_key", "env")
        .with_config("label_value", "prod")
        .build()
        .unwrap();
    match d.provider() {
        ProviderSettings::Upcloud(p) => assert_eq!(p.zone, "de-fra1"),
        other => panic!("unexpected {:?}", other),
    }
}

#[test]
fn builder_unknown_provider() {
    match DiscoveryBuilder::new("gcp").with_config("a", "b").build() {
        Err(DiscoveryError::UnknownProvider(name)) => assert_eq!(name, "gcp"),
        other => panic!("unexpected {:?}", other),
    }
}

#[test]
fn error_messages() {
    assert_eq!(
        DiscoveryError::ConfigError("x".to_string()).message(),
        "Invalid configuration: x"
    );
    assert_eq!(DiscoveryError::ProviderError("y".to_string()).message(), "Provider error: y");
    assert_eq!(DiscoveryError::UnknownProvider("z".to_string()).message(), "Unknown provider: z");
}
