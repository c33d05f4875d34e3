use make87::config::{get_config_value, secret_ref_name, ConfigValue};
use make87::index::NameIndex;
use make87::interfaces::rerun::{
    decode_server_config, deterministic_uuid_v4_from_string, PlaybackBehavior,
};
use make87::interfaces::zenoh::{
    canonize_key, decode_publisher_config, decode_queryable_config, decode_subscriber_config,
    key_expr_valid, listen_endpoints, parse_congestion, parse_priority, parse_reliability,
    CongestionControl, HandlerChannel, Priority, Reliability, ZenohInterface,
};
use make87::models::{
    AccessPoint, ApplicationEnvConfig, ApplicationInfo, BoundSubscriber, InterfaceConfig,
    MountedPeripherals, PublisherTopicConfig, SubscriberTopicConfig,
};

fn default_app_config() -> ApplicationEnvConfig {
    ApplicationEnvConfig {
        interfaces: NameIndex::new(),
        peripherals: MountedPeripherals { peripherals: vec![] },
        config: ConfigValue::Null,
        storage: None,
        application_info: ApplicationInfo {
            deployed_application_id: String::new(),
            deployed_application_name: String::new(),
            system_id: String::new(),
            application_id: String::new(),
            application_name: String::new(),
            git_url: None,
            git_branch: None,
            is_release_version: false,
        },
    }
}

fn publisher_settings() -> NameIndex<ConfigValue> {
    let mut m = NameIndex::new();
    m.insert("congestion_control".to_string(), ConfigValue::Str("DROP".to_string()));
    m.insert("priority".to_string(), ConfigValue::Str("REAL_TIME".to_string()));
    m.insert("express".to_string(), ConfigValue::Bool(true));
    m.insert("reliability".to_string(), ConfigValue::Str("BEST_EFFORT".to_string()));
    m
}

fn handler_value(kind: &str, capacity: i64) -> ConfigValue {
    ConfigValue::Object(vec![
        ("handler_type".to_string(), ConfigValue::Str(kind.to_string())),
        ("capacity".to_string(), ConfigValue::Int(capacity)),
    ])
}

#[test]
fn test_decode_publisher_config() {
    let decoded = decode_publisher_config(&publisher_settings()).unwrap();
    assert_eq!(decoded.congestion_control, CongestionControl::Drop);
    assert_eq!(decoded.priority, Priority::RealTime);
    assert!(decoded.express);
    assert_eq!(decoded.reliability, Reliability::BestEffort);
}

#[test]
fn test_decode_publisher_config_missing_field() {
    let mut m = NameIndex::new();
    m.insert("priority".to_string(), ConfigValue::Str("DATA".to_string()));
    assert!(decode_publisher_config(&m).is_err());
}

#[test]
fn test_decode_subscriber_config_fifo() {
    let mut m = NameIndex::new();
    m.insert("handler".to_string(), handler_value("FIFO", 12));
    let decoded = decode_subscriber_config(&m).unwrap();
    assert_eq!(decoded.handler, HandlerChannel::Fifo { capacity: 12 });
}

#[test]
fn test_decode_queryable_config_ring() {
    let mut m = NameIndex::new();
    m.insert("handler".to_string(), handler_value("RING", 7));
    let decoded = decode_queryable_config(&m).unwrap();
    assert_eq!(decoded.handler, HandlerChannel::Ring { capacity: 7 });
}

#[test]
fn test_get_publisher_config_lookup() {
    let mut config = default_app_config();
    let mut iface = InterfaceConfig::empty("zenoh".to_string());
    iface.publishers.insert(
        "HELLO_WORLD_MESSAGE".to_string(),
        PublisherTopicConfig {
            topic_name: "HELLO_WORLD_MESSAGE".into(),
            topic_key: "my_topic_key".into(),
            message_type: "record".into(),
            interface_name: "zenoh".into(),
            config: publisher_settings(),
            protocol: "zenoh".into(),
            encoding: Some("proto".into()),
        },
    );
    config.interfaces.insert("zenoh".to_string(), iface);

    let interface = ZenohInterface::new(config, "zenoh");
    let found = interface.get_publisher_config("HELLO_WORLD_MESSAGE");
    assert!(found.is_some());
    let decoded = decode_publisher_config(&found.unwrap().config).unwrap();
    assert_eq!(decoded.priority, Priority::RealTime);
    assert!(interface.get_publisher_config("DOES_NOT_EXIST").is_none());
    assert!(interface.get_subscriber_config("HELLO_WORLD_MESSAGE").is_none());
    assert!(interface.get_requester_config("HELLO_WORLD_MESSAGE").is_none());
    assert!(interface.get_provider_config("HELLO_WORLD_MESSAGE").is_none());
}

#[test]
fn test_connect_endpoints_dedup() {
    let mut config = default_app_config();
    let mut iface = InterfaceConfig::empty("zenoh".to_string());
    for (i, port) in [(0u32, 7447u16), (1, 7447), (2, 7448)] {
        iface.subscribers.insert(
            format!("SUB_{}", i),
            BoundSubscriber {
                access_point: AccessPoint {
                    vpn_ip: "127.0.0.1".into(),
                    vpn_port: port,
                    public_ip: None,
                    public_port: None,
                    same_node: false,
                },
                config: SubscriberTopicConfig {
                    topic_name: format!("SUB_{}", i),
                    topic_key: "k".into(),
                    message_type: "record".into(),
                    interface_name: "zenoh".into(),
                    config: NameIndex::new(),
                    protocol: "zenoh".into(),
                    encoding: Some("proto".into()),
                },
            },
        );
    }
    config.interfaces.insert("zenoh".to_string(), iface);
    let interface = ZenohInterface::new(config, "zenoh");
    // Deduplicated and already in ascending text order.
    let endpoints = interface.connect_endpoints();
    assert_eq!(endpoints, vec!["tcp/127.0.0.1:7447".to_string(), "tcp/127.0.0.1:7448".to_string()]);
}

#[test]
fn test_listen_endpoints() {
    assert_eq!(listen_endpoints(false), vec!["tcp/0.0.0.0:7447".to_string()]);
    assert!(listen_endpoints(true).is_empty());
}

#[test]
fn test_key_expr_validity_and_canonization() {
    assert!(key_expr_valid("demo/example"));
    assert!(!key_expr_valid("demo//example"));
    assert!(!key_expr_valid(""));
    // Canonization rewrites redundant wildcards: not an identity.
    assert_eq!(canonize_key("a/**/**/b"), Some("a/**/b".to_string()));
    assert_eq!(canonize_key("demo/example"), Some("demo/example".to_string()));
}

#[test]
fn test_get_config_value() {
    let mut settings: NameIndex<String> = NameIndex::new();
    settings.insert("mode".to_string(), "fast".to_string());
    assert_eq!(get_config_value(&settings, "mode"), Some("fast".to_string()));
    assert_eq!(get_config_value(&settings, "absent"), None);
}

#[test]
fn test_secret_reference_grammar() {
    let variants = [
        "{{secret.MYSECRET}}",
        "{{ secret.MYSECRET }}",
        "{{  secret.MYSECRET  }}",
        "{{secret.MYSECRET    }}",
        "{{    secret.MYSECRET }}",
        "{{    secret.MYSECRET    }}",
        "  {{ secret.MYSECRET }}  ",
        "\t{{ secret.MYSECRET }}\n",
    ];
    for variant in variants {
        assert_eq!(secret_ref_name(variant), Some("MYSECRET".to_string()), "{}", variant);
    }
    assert_eq!(secret_ref_name("no reference here"), None);
    assert_eq!(secret_ref_name("{{ secret. }}"), None);
    assert_eq!(secret_ref_name("{{ secret.NAME }} trailing"), None);
}

#[test]
fn test_decode_config_success() {
    let mut m = NameIndex::new();
    m.insert("max_bytes".to_string(), ConfigValue::Int(1073741824));
    let decoded = decode_server_config(&m).unwrap();
    assert_eq!(decoded.max_bytes, Some(1073741824u64));
    assert_eq!(decoded.playback_behavior, PlaybackBehavior::OldestFirst);
}

#[test]
fn test_decode_config_failure() {
    let mut m = NameIndex::new();
    m.insert("max_bytes".to_string(), ConfigValue::Str("not_a_number".to_string()));
    assert!(decode_server_config(&m).is_err());
}

#[test]
fn test_deterministic_uuid_generation() {
    let system_id = "test_system_id";
    let uuid1 = deterministic_uuid_v4_from_string(system_id);
    let uuid2 = deterministic_uuid_v4_from_string(system_id);

    // Same input should produce same identifier bytes.
    assert_eq!(uuid1, uuid2);

    // Different inputs should produce different identifiers.
    let uuid3 = deterministic_uuid_v4_from_string("different_system_id");
    assert_ne!(uuid1, uuid3);

    // Check that it is shaped as a version-4 identifier.
    assert_eq!(uuid1.len(), 16);
    assert_eq!(uuid1[6] >> 4, 4);
    assert_eq!(uuid1[8] >> 6, 0b10);
}

#[test]
fn test_qos_vocabulary_exhaustive() {
    let priorities = [
        ("REAL_TIME", Priority::RealTime),
        ("INTERACTIVE_HIGH", Priority::InteractiveHigh),
        ("INTERACTIVE_LOW", Priority::InteractiveLow),
        ("DATA_HIGH", Priority::DataHigh),
        ("DATA", Priority::Data),
        ("DATA_LOW", Priority::DataLow),
        ("BACKGROUND", Priority::Background),
    ];
    for (name, expected) in priorities {
        assert_eq!(parse_priority(&name.to_string()), Some(expected), "{}", name);
    }
    assert_eq!(parse_priority(&"DATA_MEDIUM".to_string()), None);

    assert_eq!(parse_reliability(&"BEST_EFFORT".to_string()), Some(Reliability::BestEffort));
    assert_eq!(parse_reliability(&"RELIABLE".to_string()), Some(Reliability::Reliable));
    assert_eq!(parse_reliability(&"SOMETIMES".to_string()), None);

    assert_eq!(parse_congestion(&"DROP".to_string()), Some(CongestionControl::Drop));
    assert_eq!(parse_congestion(&"BLOCK".to_string()), Some(CongestionControl::Block));
    assert_eq!(parse_congestion(&"PAUSE".to_string()), None);
}

#[test]
fn test_qos_defaults() {
    assert_eq!(Priority::default(), Priority::Data);
    assert_eq!(Reliability::default(), Reliability::Reliable);
    assert_eq!(CongestionControl::default(), CongestionControl::Drop);
    assert_eq!(PlaybackBehavior::default(), PlaybackBehavior::OldestFirst);
}
