use aerox::{
    ConfigError, ConnectionManagerConfig, ReactorConfig, ServerConfig, WorkerConfig,
};

#[test]
fn lib_test_default_config() {
    let config = ServerConfig::default();
    assert_eq!(config.bind_address, "0.0.0.0");
    assert_eq!(config.port, 8080);
    assert!(config.validate().is_ok());
}

#[test]
fn lib_test_bind_addr() {
    let config = ServerConfig {
        bind_address: "127.0.0.1".to_string(),
        port: 9000,
        ..Default::default()
    };
    assert_eq!(config.bind_addr(), "127.0.0.1:9000");
}

#[test]
fn lib_test_validate_invalid_port() {
    let config = ServerConfig {
        port: 0,
        ..Default::default()
    };
    assert!(config.validate().is_err());
}

#[test]
fn test_validate_empty_address() {
    let config = ServerConfig {
        bind_address: "".to_string(),
        ..Default::default()
    };
    assert!(config.validate().is_err());
}

#[test]
fn test_validate_invalid_worker_threads() {
    let config = ServerConfig {
        worker_threads: Some(0),
        ..Default::default()
    };
    assert!(config.validate().is_err());
}

#[test]
fn test_validate_too_many_worker_threads() {
    let config = ServerConfig {
        worker_threads: Some(1000),
        ..Default::default()
    };
    assert!(config.validate().is_err());
}

#[test]
fn test_validate_invalid_max_connections() {
    let config = ServerConfig {
        max_connections: Some(0),
        ..Default::default()
    };
    assert!(config.validate().is_err());
}

#[test]
fn lib_test_config_summary() {
    let config = ServerConfig::default();
    let summary = config.summary();
    assert!(summary.contains("0.0.0.0:8080"));
    assert!(summary.contains("AeroX 服务器配置"));
}

#[test]
fn test_config_default_and_validation() {
    let config = ServerConfig::default();
    assert!(config.validate().is_ok());
    assert_eq!(config.port, 8080);
}

#[test]
fn integration_test_test_config_summary() {
    let config = ServerConfig::default();
    let summary = config.summary();
    assert!(summary.contains("8080"));
}

fn validation_message(config: &ServerConfig) -> String {
    match config.validate() {
        Err(ConfigError::Validation(m)) => m,
        _ => panic!("expected a validation error"),
    }
}

#[test]
fn first_broken_rule_is_reported() {
    let config = ServerConfig {
        port: 0,
        bind_address: String::new(),
        ..Default::default()
    };
    assert_eq!(validation_message(&config), "端口不能为 0");
    let config = ServerConfig {
        bind_address: String::new(),
        worker_threads: Some(0),
        ..Default::default()
    };
    assert_eq!(validation_message(&config), "绑定地址不能为空");
    let config = ServerConfig {
        max_requests_per_second_per_connection: Some(0),
        ..Default::default()
    };
    assert_eq!(validation_message(&config), "每连接请求数不能为 0");
    let config = ServerConfig {
        max_requests_per_second_total: Some(0),
        ..Default::default()
    };
    assert_eq!(validation_message(&config), "全局请求数不能为 0");
}

#[test]
fn worker_thread_limit_is_inclusive() {
    let config = ServerConfig {
        worker_threads: Some(512),
        ..Default::default()
    };
    assert!(config.validate().is_ok());
    let config = ServerConfig {
        worker_threads: Some(513),
        ..Default::default()
    };
    assert!(config.validate().is_err());
}

#[test]
fn summary_text_in_full() {
    let config = ServerConfig {
        max_connections: Some(5000),
        worker_threads: Some(4),
        enable_ddos_protection: false,
        ..Default::default()
    };
    assert_eq!(
        config.summary(),
        "AeroX 服务器配置:\n  地址: 0.0.0.0:8080\n  最大连接数: Some(5000)\n  DDoS 防护: false\n  工作线程: Some(4)"
    );
    assert_eq!(
        ServerConfig::default().summary(),
        "AeroX 服务器配置:\n  地址: 0.0.0.0:8080\n  最大连接数: None\n  DDoS 防护: true\n  工作线程: None"
    );
}

#[test]
fn effective_worker_count_prefers_the_setting() {
    let config = ServerConfig {
        worker_threads: Some(3),
        ..Default::default()
    };
    assert_eq!(config.effective_worker_count(), 3);
    assert!(ServerConfig::default().effective_worker_count() >= 1);
}

#[test]
fn other_defaults() {
    let reactor = ReactorConfig::default();
    assert_eq!(reactor.reactor_buffer_size, 8192);
    assert_eq!(reactor.batch_size, 32);
    assert_eq!(reactor.batch_timeout_ms, 10);
    assert_eq!(reactor.connection_timeout_secs, 300);
    let manager = ConnectionManagerConfig::default();
    assert_eq!(manager.idle_timeout_secs, 300);
    assert!(manager.enable_auto_cleanup);
    assert_eq!(manager.cleanup_interval_secs, 60);
    let worker = WorkerConfig::default();
    assert_eq!(worker.id, 0);
    assert_eq!(worker.channel_size, 1024);
    let server = ServerConfig::default();
    assert_eq!(server.max_requests_per_second_per_connection, Some(1000));
    assert_eq!(server.max_requests_per_second_total, Some(100_000));
    assert!(server.enable_ddos_protection);
}

#[test]
fn test_default_config() {
    let config = ServerConfig::default();
    assert_eq!(config.bind_address, "0.0.0.0");
    assert_eq!(config.port, 8080);
    assert!(config.validate().is_ok());
}

#[test]
fn test_bind_addr() {
    let config = ServerConfig {
        bind_address: "127.0.0.1".to_string(),
        port: 9000,
        ..Default::default()
    };
    assert_eq!(config.bind_addr(), "127.0.0.1:9000");
}

#[test]
fn test_validate_invalid_port() {
    let config = ServerConfig {
        port: 0,
        ..Default::default()
    };
    assert!(config.validate().is_err());
}
