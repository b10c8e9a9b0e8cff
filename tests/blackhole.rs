use vector::blackhole::{
    validate_acknowledgements, AcknowledgementError, AcknowledgementsConfig, BlackholeConfig, SinkConfig,
};

#[test]
fn config_generate_config() {
    let text = BlackholeConfig::generate_config();
    let table: toml::Table = toml::from_str(&text).unwrap();
    assert_eq!(table.get("print_interval_secs"), Some(&toml::Value::Integer(1)));
    assert_eq!(table.len(), 1);
}

#[test]
fn rendered_config_parses_back() {
    let config = BlackholeConfig {
        print_interval_secs: 1234567,
        rate: Some(90),
        acknowledgements: AcknowledgementsConfig { enabled: Some(true) },
    };
    let table: toml::Table = toml::from_str(&config.to_toml_text()).unwrap();
    assert_eq!(table.get("print_interval_secs"), Some(&toml::Value::Integer(1234567)));
    assert_eq!(table.get("rate"), Some(&toml::Value::Integer(90)));
    let acks = table.get("acknowledgements").unwrap().as_table().unwrap();
    assert_eq!(acks.get("enabled"), Some(&toml::Value::Boolean(true)));
}

#[test]
fn zero_interval_renders() {
    let config = BlackholeConfig {
        print_interval_secs: 0,
        rate: None,
        acknowledgements: AcknowledgementsConfig { enabled: Some(false) },
    };
    assert_eq!(
        config.to_toml_text(),
        "print_interval_secs = 0\n\n[acknowledgements]\nenabled = false\n"
    );
}

#[test]
fn sink_description() {
    let config = BlackholeConfig::default();
    assert_eq!(config.sink_type(), "blackhole");
    let input = config.input();
    assert!(input.log && input.metric && input.trace);
    assert!(!config.acknowledgements().enabled());
    assert_eq!(config.print_interval_secs, 1);
    assert_eq!(config.rate, None);
}

#[test]
fn sinks_are_found_by_name() {
    let sink = SinkConfig::from_name("blackhole").unwrap();
    assert_eq!(sink, SinkConfig::Blackhole(BlackholeConfig::default()));
    assert_eq!(sink.sink_type(), "blackhole");
    assert_eq!(sink.acknowledgements(), AcknowledgementsConfig { enabled: None });
    assert_eq!(SinkConfig::from_name("console"), None);
    assert_eq!(SinkConfig::from_name(""), None);
}

#[test]
fn acknowledgements_need_a_finalizing_source() {
    let on = AcknowledgementsConfig { enabled: Some(true) };
    let off = AcknowledgementsConfig { enabled: Some(false) };
    let unset = AcknowledgementsConfig::default();
    assert_eq!(validate_acknowledgements(&on, false), Err(AcknowledgementError::NoFinalizingSource));
    assert_eq!(validate_acknowledgements(&on, true), Ok(()));
    assert_eq!(validate_acknowledgements(&off, false), Ok(()));
    assert_eq!(validate_acknowledgements(&unset, false), Ok(()));
    assert!(on.enabled());
}
