use aerox::{AeroXError, AeroXErrorKind, ClientError, ConfigError, Error, ErrorContext};

#[test]
fn test_context_from_tuple() {
    let ctx: ErrorContext = ("key", "value").into();
    assert!(matches!(ctx, ErrorContext::KeyValue(_, _)));
    assert_eq!(ctx.to_string(), "key: value");
}

#[test]
fn test_context_from_string() {
    let ctx: ErrorContext = "error message".into();
    assert!(matches!(ctx, ErrorContext::Custom(_)));
    assert_eq!(ctx.to_string(), "error message");
}

#[test]
fn test_error_creation() {
    let err = AeroXError::config("test error");
    assert!(matches!(err, AeroXError::Config(_)));
    assert_eq!(err.kind(), AeroXErrorKind::Config);
}

#[test]
fn test_error_with_context() {
    let err = AeroXError::network("connection failed").with_context(("peer_address", "127.0.0.1:8080"));
    assert!(matches!(err, AeroXError::WithContext(_, _)));
}

#[test]
fn test_error_kinds() {
    assert_eq!(AeroXError::config("").kind(), AeroXErrorKind::Config);
    assert_eq!(AeroXError::network("").kind(), AeroXErrorKind::Network);
    assert_eq!(AeroXError::timeout().kind(), AeroXErrorKind::Timeout);
}

#[test]
fn error_test_error_display() {
    let err = ClientError::ConnectionFailed("test".to_string());
    assert_eq!(err.to_string(), "Connection failed: test");
}

#[test]
fn test_error_display() {
    let err = AeroXError::Config("测试配置错误".to_string());
    assert_eq!(err.to_string(), "配置错误: 测试配置错误");
}

#[test]
fn integration_test_test_error_display() {
    let err = AeroXError::config("test error");
    assert!(err.to_string().contains("test error"));
}

#[test]
fn test_error_from_io() {
    let io_err = std::io::Error::new(std::io::ErrorKind::NotFound, "文件未找到");
    let aerox_err: AeroXError = io_err.into();
    assert!(matches!(aerox_err, AeroXError::Io(_)));
}

#[test]
fn error_test_error_conversion() {
    let err = ClientError::NotConnected;
    let aerox_err: AeroXError = err.into();
    assert!(matches!(aerox_err.kind(), AeroXErrorKind::Connection));
}

#[test]
fn integration_test_test_error_conversion() {
    let io_err = std::io::Error::new(std::io::ErrorKind::NotFound, "file not found");
    let aerox_err: AeroXError = io_err.into();
    assert!(aerox_err.to_string().contains("file not found"));
}

#[test]
fn every_kind_is_projected() {
    assert_eq!(AeroXError::protocol("").kind(), AeroXErrorKind::Protocol);
    assert_eq!(AeroXError::router("").kind(), AeroXErrorKind::Router);
    assert_eq!(AeroXError::plugin("").kind(), AeroXErrorKind::Plugin);
    assert_eq!(AeroXError::serialization("").kind(), AeroXErrorKind::Serialization);
    assert_eq!(AeroXError::connection("").kind(), AeroXErrorKind::Connection);
    assert_eq!(AeroXError::unimplemented("").kind(), AeroXErrorKind::Unimplemented);
    assert_eq!(AeroXError::validation("").kind(), AeroXErrorKind::Validation);
    assert_eq!(AeroXError::Io("x".to_string()).kind(), AeroXErrorKind::Io);
    assert_eq!(
        AeroXError::timeout().with_context("ctx").kind(),
        AeroXErrorKind::Other
    );
}

#[test]
fn context_keeps_the_inner_error_text() {
    let err = AeroXError::network("down").with_context(("peer".to_string().as_str(), "x".to_string()));
    assert_eq!(err.to_string(), "网络错误: down");
    match err {
        AeroXError::WithContext(inner, ctx) => {
            assert_eq!(inner.kind(), AeroXErrorKind::Network);
            assert_eq!(ctx.to_string(), "peer: x");
        }
        _ => panic!("expected context"),
    }
}

#[test]
fn timeout_text() {
    assert_eq!(AeroXError::timeout().to_string(), "操作超时");
}

#[test]
fn client_errors_map_to_framework_kinds() {
    let cases = vec![
        (ClientError::ConnectionFailed("a".to_string()), AeroXErrorKind::Connection),
        (ClientError::SendFailed("a".to_string()), AeroXErrorKind::Network),
        (ClientError::ReceiveFailed("a".to_string()), AeroXErrorKind::Network),
        (ClientError::HandlerError(3, "a".to_string()), AeroXErrorKind::Plugin),
        (ClientError::ReconnectExhausted(4), AeroXErrorKind::Connection),
        (ClientError::Timeout("a".to_string()), AeroXErrorKind::Timeout),
        (ClientError::InvalidConfig("a".to_string()), AeroXErrorKind::Config),
    ];
    for (client, kind) in cases {
        let framework: AeroXError = client.into();
        assert_eq!(framework.kind(), kind);
    }
}

#[test]
fn client_error_texts() {
    assert_eq!(
        ClientError::HandlerError(12, "bad".to_string()).to_string(),
        "Handler error for message 12: bad"
    );
    assert_eq!(
        ClientError::ReconnectExhausted(5).to_string(),
        "Reconnect exhausted after 5 attempts"
    );
    let framework: AeroXError = ClientError::HandlerError(12, "bad".to_string()).into();
    assert_eq!(framework.to_string(), "插件错误: Handler 12 error: bad");
}

#[test]
fn config_error_text() {
    assert_eq!(
        ConfigError::Validation("端口不能为 0".to_string()).to_string(),
        "配置验证失败: 端口不能为 0"
    );
}

#[test]
fn umbrella_error_maps_to_framework_error() {
    assert!(matches!(Error::Core(AeroXError::timeout()).into_core(), AeroXError::Timeout));
    match Error::Custom("boom".to_string()).into_core() {
        AeroXError::Network(m) => assert_eq!(m, "boom"),
        _ => panic!("expected a network error"),
    }
    match Error::Client(ClientError::NotConnected).into_core() {
        AeroXError::Network(m) => assert_eq!(m, "Not connected"),
        _ => panic!("expected a network error"),
    }
    match Error::Config(ConfigError::Parse("x".to_string())).into_core() {
        AeroXError::Config(m) => assert_eq!(m, "解析配置文件失败: x"),
        _ => panic!("expected a configuration error"),
    }
}
