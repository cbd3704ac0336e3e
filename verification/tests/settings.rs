use iceoryx2::prelude::Config;
use std::time::Duration;
use up_transport_iceoryx2_rust::config::{
    env_iceoryx2_config, fallback_iceoryx2_config, node_settings, node_settings_after_failure,
    AllocationStrategy, EnvValue, NamespaceOverride, NodeSettings,
};
use up_transport_iceoryx2_rust::{
    Iceoryx2PubSubConfig, Iceoryx2PullMismatchQueueFullPolicy, MessagingPattern, UCode,
    UTransportIceoryx2,
};

fn text(value: &str) -> EnvValue {
    EnvValue::Text(value.to_string())
}

fn replaced(root_path: Option<&str>, prefix: Option<&str>) -> NamespaceOverride {
    NamespaceOverride {
        root_path: root_path.map(str::to_string),
        prefix: prefix.map(str::to_string),
    }
}

#[test]
fn native_namespace_rejects_invalid_inputs() {
    assert!(Iceoryx2PubSubConfig::default()
        .with_namespace("relative", "prefix_")
        .is_err());
    assert!(Iceoryx2PubSubConfig::default()
        .with_namespace("/absolute", "bad/prefix")
        .is_err());
    assert!(Iceoryx2PubSubConfig::default()
        .with_namespace("/absolute", "")
        .is_err());
}

#[test]
fn namespace_failures_name_the_part() {
    let message = |root_path: &str, prefix: &str| {
        let status = Iceoryx2PubSubConfig::default()
            .with_namespace(root_path, prefix)
            .err()
            .unwrap();
        assert_eq!(status.get_code(), UCode::InvalidArgument);
        status.message
    };
    assert_eq!(
        message("relative", "p"),
        "iceoryx2 root path must be absolute: relative"
    );
    assert_eq!(message("", "p"), "iceoryx2 root path must be absolute: ");
    assert_eq!(message("/a?b", "p"), "invalid iceoryx2 root path /a?b");
    assert_eq!(
        message(&format!("/{}", "a".repeat(255)), "p"),
        format!("invalid iceoryx2 root path /{}", "a".repeat(255))
    );
    for prefix in ["", ".", "..", "a/b", "a\\b", "a*b", "a\nb", "ä"] {
        assert_eq!(message("/r", prefix), format!("invalid iceoryx2 prefix {prefix}"));
    }
}

#[test]
fn namespace_is_kept_as_given() {
    let config = Iceoryx2PubSubConfig::static_allocation(7)
        .with_namespace("/tmp/x", "a_")
        .unwrap();
    let namespace = config.namespace.as_ref().unwrap();
    assert_eq!(namespace.root_path(), "/tmp/x");
    assert_eq!(namespace.prefix(), "a_");
    assert_eq!(config.publisher_initial_max_slice_len, 7);
    assert!(config.iceoryx2_config.is_none());
}

#[test]
fn default_settings_are_those_of_a_growing_publisher_without_peers() {
    let config = Iceoryx2PubSubConfig::default();
    assert_eq!(config.publisher_initial_max_slice_len, 1);
    assert_eq!(config.publisher_allocation_strategy, AllocationStrategy::PowerOfTwo);
    assert_eq!(config.pull_mismatch_queue_capacity, 64);
    assert_eq!(
        config.pull_mismatch_queue_full_policy,
        Iceoryx2PullMismatchQueueFullPolicy::DropOldestAndReport
    );
    assert!(config.iceoryx2_config.is_none());
    assert!(config.namespace.is_none());
    assert_eq!(config.publisher_readiness_minimum, 0);
    assert_eq!(config.publisher_readiness_timeout, None);
}

#[test]
fn builders_change_one_setting_each() {
    let config = Iceoryx2PubSubConfig::static_allocation(512)
        .with_pull_mismatch_queue_capacity(3)
        .with_publisher_readiness(2, Duration::from_millis(30));
    assert_eq!(config.publisher_initial_max_slice_len, 512);
    assert_eq!(config.publisher_allocation_strategy, AllocationStrategy::Static);
    assert_eq!(config.pull_mismatch_queue_capacity, 3);
    assert_eq!(config.publisher_readiness_minimum, 2);
    assert_eq!(
        config.publisher_readiness_timeout,
        Some(Duration::from_millis(30))
    );
}

#[test]
fn settings_are_cloned_with_all_their_parts() {
    let settings = Iceoryx2PubSubConfig::default()
        .with_pull_mismatch_queue_capacity(7)
        .with_namespace("/tmp/iceoryx2", "bus_")
        .unwrap()
        .with_publisher_readiness(2, Duration::from_millis(5));
    assert_eq!(settings.clone(), settings);
}

#[test]
fn last_of_native_settings_and_namespace_counts() {
    let config = Iceoryx2PubSubConfig::default()
        .with_namespace("/tmp/x", "a_")
        .unwrap()
        .with_iceoryx2_config(Config::default());
    assert!(config.namespace.is_none());
    assert_eq!(
        node_settings(&config, &EnvValue::Unset, &EnvValue::Unset),
        NodeSettings::Explicit
    );
    let config = config.with_namespace("/tmp/y", "b_").unwrap();
    assert!(config.iceoryx2_config.is_none());
    assert_eq!(
        node_settings(&config, &text("/env"), &text("env_")),
        NodeSettings::Overridden(replaced(Some("/tmp/y"), Some("b_")))
    );
}

#[test]
fn environment_is_asked_where_the_settings_say_nothing() {
    let config = Iceoryx2PubSubConfig::default();
    assert_eq!(
        node_settings(&config, &EnvValue::Unset, &EnvValue::Unset),
        NodeSettings::Native
    );
    assert_eq!(
        node_settings(&config, &text("/env"), &EnvValue::Unset),
        NodeSettings::Overridden(replaced(Some("/env"), Some("up_iceoryx2_")))
    );
    assert_eq!(
        node_settings(&config, &EnvValue::NotUnicode, &text("env_")),
        NodeSettings::Overridden(replaced(Some("/tmp/up-iceoryx2"), Some("env_")))
    );
    assert_eq!(env_iceoryx2_config(&EnvValue::Unset, &EnvValue::Unset), None);
}

#[test]
fn unusable_environment_leaves_the_native_default() {
    assert_eq!(
        fallback_iceoryx2_config(&text("/a*b"), &text("a/b")),
        replaced(None, None)
    );
    assert_eq!(
        fallback_iceoryx2_config(&text(""), &text("")),
        replaced(Some(""), None)
    );
}

#[test]
fn only_native_defaults_have_a_fallback() {
    assert_eq!(
        node_settings_after_failure(&NodeSettings::Native, &EnvValue::Unset, &EnvValue::Unset),
        Some(NodeSettings::Overridden(replaced(
            Some("/tmp/up-iceoryx2"),
            Some("up_iceoryx2_")
        )))
    );
    for failed in [
        NodeSettings::Explicit,
        NodeSettings::Overridden(replaced(None, None)),
    ] {
        assert_eq!(
            node_settings_after_failure(&failed, &EnvValue::Unset, &EnvValue::Unset),
            None
        );
    }
}

#[test]
fn namespaces_of_two_transports_stay_apart() {
    let settings = |prefix: &str| {
        let config = Iceoryx2PubSubConfig::default()
            .with_namespace("/tmp/x", prefix)
            .unwrap();
        node_settings(&config, &EnvValue::Unset, &EnvValue::Unset)
    };
    assert_ne!(settings("a_"), settings("b_"));
}

#[test]
fn only_publish_subscribe_is_built() {
    let transport = UTransportIceoryx2::build(MessagingPattern::PublishSubscribe).unwrap();
    assert_eq!(transport.config, Iceoryx2PubSubConfig::default());
    let transport = UTransportIceoryx2::build_with_config(
        MessagingPattern::PublishSubscribe,
        Iceoryx2PubSubConfig::static_allocation(9),
    )
    .unwrap();
    assert_eq!(transport.config.publisher_initial_max_slice_len, 9);
    for pattern in [
        MessagingPattern::Event,
        MessagingPattern::RequestResponse,
        MessagingPattern::Blackboard,
    ] {
        let status = UTransportIceoryx2::build(pattern).err().unwrap();
        assert_eq!(status.get_code(), UCode::Unimplemented);
        assert_eq!(status.message(), "Unimplemented messaging pattern");
    }
}
