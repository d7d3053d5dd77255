use aerox::{
    parse_addr, unwrap_message, wrap_message, ClientState, HeartbeatPlugin, MessageRegistry,
    Plugin, PluginRegistry, RateLimitPlugin, RegistryError, ServerConfig,
};

struct PluginA;

impl Plugin for PluginA {
    fn name(&self) -> &'static str {
        "plugin_a"
    }
}

struct PluginB;

impl Plugin for PluginB {
    fn name(&self) -> &'static str {
        "plugin_b"
    }

    fn dependencies(&self) -> &'static [&'static str] {
        &["plugin_a"]
    }
}

struct PluginC;

impl Plugin for PluginC {
    fn name(&self) -> &'static str {
        "plugin_c"
    }

    fn dependencies(&self) -> &'static [&'static str] {
        &["plugin_b"]
    }
}

struct Loop1;

impl Plugin for Loop1 {
    fn name(&self) -> &'static str {
        "loop_1"
    }

    fn dependencies(&self) -> &'static [&'static str] {
        &["loop_2"]
    }
}

struct Loop2;

impl Plugin for Loop2 {
    fn name(&self) -> &'static str {
        "loop_2"
    }

    fn dependencies(&self) -> &'static [&'static str] {
        &["loop_1"]
    }
}

type Registry = PluginRegistry<Box<dyn Plugin>>;

#[test]
fn test_registry_creation() {
    let registry: Registry = PluginRegistry::new();
    assert_eq!(registry.count(), 0);
}

#[test]
fn test_add_plugin() {
    let mut registry: Registry = PluginRegistry::new();
    registry.add(Box::new(PluginA)).unwrap();
    assert_eq!(registry.count(), 1);
}

#[test]
fn test_duplicate_plugin() {
    let mut registry: Registry = PluginRegistry::new();
    registry.add(Box::new(PluginA)).unwrap();
    let result = registry.add(Box::new(PluginA));
    assert!(result.is_err());
}

#[test]
fn test_validate_dependencies() {
    let mut registry: Registry = PluginRegistry::new();
    registry.add(Box::new(PluginA)).unwrap();
    registry.add(Box::new(PluginB)).unwrap();
    assert!(registry.validate_dependencies().is_ok());
}

#[test]
fn test_validate_dependencies_missing() {
    let mut registry: Registry = PluginRegistry::new();
    registry.add(Box::new(PluginB)).unwrap();
    let result = registry.validate_dependencies();
    assert!(result.is_err());
}

#[test]
fn test_initialization_order() {
    let mut registry: Registry = PluginRegistry::new();
    registry.add(Box::new(PluginC)).unwrap();
    registry.add(Box::new(PluginB)).unwrap();
    registry.add(Box::new(PluginA)).unwrap();

    let order = registry.initialization_order().unwrap();
    assert_eq!(order, vec!["plugin_a", "plugin_b", "plugin_c"]);
}

#[test]
fn test_plugin_dependencies() {
    let mut registry: Registry = PluginRegistry::new();
    registry.add(Box::new(PluginB)).unwrap();
    registry.add(Box::new(PluginA)).unwrap();
    assert!(registry.validate_dependencies().is_ok());
    assert_eq!(
        registry.initialization_order().unwrap(),
        vec!["plugin_a", "plugin_b"]
    );
}

#[test]
fn test_plugin_registration() {
    let mut registry: Registry = PluginRegistry::new();
    registry.add(Box::new(HeartbeatPlugin::default())).unwrap();
    registry
        .add(Box::new(RateLimitPlugin::from_config(ServerConfig::default())))
        .unwrap();
    assert_eq!(registry.count(), 2);
    assert_eq!(
        registry.initialization_order().unwrap(),
        vec!["HeartbeatPlugin", "RateLimitPlugin"]
    );
}

#[test]
fn dependency_cycle_is_reported() {
    let mut registry: Registry = PluginRegistry::new();
    registry.add(Box::new(PluginA)).unwrap();
    registry.add(Box::new(Loop1)).unwrap();
    registry.add(Box::new(Loop2)).unwrap();
    let err = registry.initialization_order().unwrap_err();
    assert_eq!(err.to_string(), "插件错误: 检测到循环依赖: loop_1");
}

#[test]
fn missing_dependency_is_named() {
    let mut registry: Registry = PluginRegistry::new();
    registry.add(Box::new(PluginC)).unwrap();
    let err = registry.validate_dependencies().unwrap_err();
    assert_eq!(
        err.to_string(),
        "插件错误: 插件 plugin_c 依赖的插件 plugin_b 未注册"
    );
}

#[test]
fn duplicate_plugin_is_named() {
    let mut registry: Registry = PluginRegistry::new();
    registry.add(Box::new(PluginA)).unwrap();
    let err = registry.add(Box::new(PluginA)).unwrap_err();
    assert_eq!(err.to_string(), "插件错误: 插件已存在: plugin_a");
    assert_eq!(registry.count(), 1);
}

#[test]
fn heartbeat_defaults() {
    let plugin = HeartbeatPlugin::default();
    assert_eq!(plugin.interval_secs, 30);
    assert_eq!(plugin.timeout_secs, 60);
    assert_eq!(plugin.name(), "HeartbeatPlugin");
    assert!(!plugin.is_required());
}

#[test]
fn test_registry() {
    let mut registry = MessageRegistry::new();
    registry.register(1001, "TestMessage".to_string()).unwrap();
    assert!(registry.contains(1001));
    assert!(!registry.contains(1002));
    assert_eq!(registry.get_name(1001), Some(&"TestMessage".to_string()));
}

#[test]
fn test_registry_duplicate() {
    let mut registry = MessageRegistry::new();
    registry.register(1001, "FirstMessage".to_string()).unwrap();
    let result = registry.register(1001, "SecondMessage".to_string());
    assert!(result.is_err());
}

#[test]
fn test_registry_list() {
    let mut registry = MessageRegistry::new();
    registry.register(1001, "Message1".to_string()).unwrap();
    registry.register(1002, "Message2".to_string()).unwrap();
    registry.register(1003, "Message3".to_string()).unwrap();

    let ids = registry.list_ids();
    assert_eq!(ids.len(), 3);
    assert!(ids.contains(&1001));
    assert!(ids.contains(&1002));
    assert!(ids.contains(&1003));
    assert_eq!(registry.count(), 3);
}

#[test]
fn test_wrap_unwrap_message() {
    let payload = b"test payload data".to_vec();
    let wrapped = wrap_message(1001, 12345, &payload).unwrap();

    let (msg_id, seq_id, unpacked_payload) = unwrap_message(&wrapped).unwrap();
    assert_eq!(msg_id, 1001);
    assert_eq!(seq_id, 12345);
    assert_eq!(unpacked_payload, payload);
}

#[test]
fn test_empty_message() {
    let payload: Vec<u8> = Vec::new();
    let wrapped = wrap_message(1001, 1, &payload).unwrap();
    let (_, _, unpacked) = unwrap_message(&wrapped).unwrap();
    assert!(unpacked.is_empty());
}

#[test]
fn envelope_is_big_endian() {
    let wrapped = wrap_message(0x01020304, 0x05, &[9, 8]).unwrap();
    assert_eq!(
        wrapped,
        vec![1, 2, 3, 4, 0, 0, 0, 0, 0, 0, 0, 5, 0, 0, 0, 2, 9, 8]
    );
}

#[test]
fn short_or_truncated_envelopes_fail() {
    assert!(matches!(
        unwrap_message(&[0u8; 15]),
        Err(RegistryError::DecodeError(_))
    ));
    let mut wrapped = wrap_message(1, 2, &[1, 2, 3]).unwrap();
    wrapped.pop();
    assert!(matches!(
        unwrap_message(&wrapped),
        Err(RegistryError::DecodeError(_))
    ));
}

#[test]
fn duplicate_message_id_is_reported() {
    let mut registry = MessageRegistry::new();
    registry.register(5, "A".to_string()).unwrap();
    assert!(matches!(
        registry.register(5, "B".to_string()),
        Err(RegistryError::MessageAlreadyExists(5))
    ));
    assert_eq!(registry.get_name(5), Some(&"A".to_string()));
}

#[test]
fn test_parse_addr_with_port() {
    let (host, port) = parse_addr("127.0.0.1:8080");
    assert_eq!(host, "127.0.0.1");
    assert_eq!(port, 8080);
}

#[test]
fn test_parse_addr_without_port() {
    let (host, port) = parse_addr("127.0.0.1");
    assert_eq!(host, "127.0.0.1");
    assert_eq!(port, 8080);
}

#[test]
fn parse_addr_reads_ports_like_std() {
    assert_eq!(parse_addr("h:9000"), ("h".to_string(), 9000));
    assert_eq!(parse_addr("h:+42"), ("h".to_string(), 42));
    assert_eq!(parse_addr("h:65535"), ("h".to_string(), 65535));
    assert_eq!(parse_addr("h:65536"), ("h".to_string(), 8080));
    assert_eq!(parse_addr("h:12a"), ("h".to_string(), 8080));
    assert_eq!(parse_addr("h:"), ("h".to_string(), 8080));
    assert_eq!(parse_addr("h:1:2"), ("h".to_string(), 8080));
    assert_eq!(parse_addr(":7"), ("".to_string(), 7));
}

#[test]
fn test_client_state() {
    let state = ClientState::Disconnected;
    assert_eq!(state, ClientState::Disconnected);

    let state2 = ClientState::Connected;
    assert_ne!(state, state2);
}
