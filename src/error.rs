//! The error taxonomy: framework errors with a kind projection, attached
//! context, and the client, configuration and transport errors.
use vstd::prelude::*;
use crate::text::{decimal, push_decimal};

verus! {

broadcast use vstd::string::group_string_axioms;

/// Extra information attached to an error.
#[derive(Debug, Clone)]
pub enum ErrorContext {
    /// A key and its value.
    KeyValue(String, String),
    /// Free text.
    Custom(String),
}

/// The text of a context.
pub open spec fn context_text(c: ErrorContext) -> Seq<char> {
    match c {
        ErrorContext::KeyValue(k, v) => k@ + ": "@ + v@,
        ErrorContext::Custom(m) => m@,
    }
}

impl ErrorContext {
    /// A key/value context.
    pub fn key_value(key: &str, value: &str) -> (r: ErrorContext)
        ensures
            r matches ErrorContext::KeyValue(k, v) && k@ == key@ && v@ == value@,
    {
        ErrorContext::KeyValue(key.to_string(), value.to_string())
    }

    /// A free-text context.
    pub fn custom(msg: &str) -> (r: ErrorContext)
        ensures
            r matches ErrorContext::Custom(m) && m@ == msg@,
    {
        ErrorContext::Custom(msg.to_string())
    }

    /// The context as text: `key: value`, or the free text.
    pub fn to_string(&self) -> (r: String)
        ensures
            r@ == context_text(*self),
    {
        match self {
            ErrorContext::KeyValue(k, v) => {
                let mut s = k.clone();
                s.append(": ");
                s.append(v.as_str());
                s
            },
            ErrorContext::Custom(m) => m.clone(),
        }
    }
}

impl<'a, 'b> From<(&'a str, &'b str)> for ErrorContext {
    fn from(kv: (&'a str, &'b str)) -> (r: ErrorContext) {
        ErrorContext::key_value(kv.0, kv.1)
    }
}

impl<'a, 'b> vstd::std_specs::convert::FromSpecImpl<(&'a str, &'b str)> for ErrorContext {
    open spec fn obeys_from_spec() -> bool {
        false
    }

    open spec fn from_spec(kv: (&'a str, &'b str)) -> ErrorContext {
        arbitrary()
    }
}

impl<'a> From<(&'a str, String)> for ErrorContext {
    fn from(kv: (&'a str, String)) -> (r: ErrorContext) {
        ErrorContext::KeyValue(kv.0.to_string(), kv.1)
    }
}

impl<'a> vstd::std_specs::convert::FromSpecImpl<(&'a str, String)> for ErrorContext {
    open spec fn obeys_from_spec() -> bool {
        false
    }

    open spec fn from_spec(kv: (&'a str, String)) -> ErrorContext {
        arbitrary()
    }
}

impl<'a> From<&'a str> for ErrorContext {
    fn from(msg: &'a str) -> (r: ErrorContext) {
        ErrorContext::custom(msg)
    }
}

impl<'a> vstd::std_specs::convert::FromSpecImpl<&'a str> for ErrorContext {
    open spec fn obeys_from_spec() -> bool {
        false
    }

    open spec fn from_spec(msg: &'a str) -> ErrorContext {
        arbitrary()
    }
}

impl From<String> for ErrorContext {
    fn from(msg: String) -> (r: ErrorContext) {
        ErrorContext::Custom(msg)
    }
}

impl vstd::std_specs::convert::FromSpecImpl<String> for ErrorContext {
    open spec fn obeys_from_spec() -> bool {
        false
    }

    open spec fn from_spec(msg: String) -> ErrorContext {
        arbitrary()
    }
}

/// The framework's error.
#[derive(Debug)]
pub enum AeroXError {
    Io(String),
    Config(String),
    Network(String),
    Protocol(String),
    Router(String),
    Plugin(String),
    Serialization(String),
    Connection(String),
    Timeout,
    Unimplemented(String),
    Validation(String),
    /// An error with context attached; the inner error is kept whole.
    WithContext(Box<AeroXError>, ErrorContext),
}

/// The classification of an [`AeroXError`].
#[derive(Debug, Clone, Copy, PartialEq, Eq, Hash, Structural)]
pub enum AeroXErrorKind {
    Io,
    Config,
    Network,
    Protocol,
    Router,
    Plugin,
    Serialization,
    Connection,
    Timeout,
    Unimplemented,
    Validation,
    Other,
}

/// The kind of `e`.
pub open spec fn kind_of(e: AeroXError) -> AeroXErrorKind {
    match e {
        AeroXError::Io(_) => AeroXErrorKind::Io,
        AeroXError::Config(_) => AeroXErrorKind::Config,
        AeroXError::Network(_) => AeroXErrorKind::Network,
        AeroXError::Protocol(_) => AeroXErrorKind::Protocol,
        AeroXError::Router(_) => AeroXErrorKind::Router,
        AeroXError::Plugin(_) => AeroXErrorKind::Plugin,
        AeroXError::Serialization(_) => AeroXErrorKind::Serialization,
        AeroXError::Connection(_) => AeroXErrorKind::Connection,
        AeroXError::Timeout => AeroXErrorKind::Timeout,
        AeroXError::Unimplemented(_) => AeroXErrorKind::Unimplemented,
        AeroXError::Validation(_) => AeroXErrorKind::Validation,
        AeroXError::WithContext(_, _) => AeroXErrorKind::Other,
    }
}

/// The display text of `e`; an error with context shows its inner error.
pub open spec fn error_text(e: AeroXError) -> Seq<char>
    decreases e,
{
    match e {
        AeroXError::Io(m) => "IO 错误: "@ + m@,
        AeroXError::Config(m) => "配置错误: "@ + m@,
        AeroXError::Network(m) => "网络错误: "@ + m@,
        AeroXError::Protocol(m) => "协议错误: "@ + m@,
        AeroXError::Router(m) => "路由错误: "@ + m@,
        AeroXError::Plugin(m) => "插件错误: "@ + m@,
        AeroXError::Serialization(m) => "序列化错误: "@ + m@,
        AeroXError::Connection(m) => "连接错误: "@ + m@,
        AeroXError::Timeout => "操作超时"@,
        AeroXError::Unimplemented(m) => "未实现的特性: "@ + m@,
        AeroXError::Validation(m) => "验证失败: "@ + m@,
        AeroXError::WithContext(inner, _) => error_text(*inner),
    }
}

/// `prefix` followed by `m`.
fn prefixed(prefix: &str, m: &String) -> (r: String)
    ensures
        r@ == prefix@ + m@,
{
    let mut s = prefix.to_string();
    s.append(m.as_str());
    s
}

impl AeroXError {
    /// The kind of this error.
    pub fn kind(&self) -> (r: AeroXErrorKind)
        ensures
            r == kind_of(*self),
    {
        match self {
            AeroXError::Io(_) => AeroXErrorKind::Io,
            AeroXError::Config(_) => AeroXErrorKind::Config,
            AeroXError::Network(_) => AeroXErrorKind::Network,
            AeroXError::Protocol(_) => AeroXErrorKind::Protocol,
            AeroXError::Router(_) => AeroXErrorKind::Router,
            AeroXError::Plugin(_) => AeroXErrorKind::Plugin,
            AeroXError::Serialization(_) => AeroXErrorKind::Serialization,
            AeroXError::Connection(_) => AeroXErrorKind::Connection,
            AeroXError::Timeout => AeroXErrorKind::Timeout,
            AeroXError::Unimplemented(_) => AeroXErrorKind::Unimplemented,
            AeroXError::Validation(_) => AeroXErrorKind::Validation,
            AeroXError::WithContext(_, _) => AeroXErrorKind::Other,
        }
    }

    /// Wraps this error with `context`, keeping it as the source.
    pub fn with_context<C: Into<ErrorContext>>(self, context: C) -> (r: AeroXError)
        ensures
            r matches AeroXError::WithContext(inner, _) && *inner == self,
    {
        AeroXError::WithContext(Box::new(self), context.into())
    }

    /// The display text of this error.
    pub fn to_string(&self) -> (r: String)
        ensures
            r@ == error_text(*self),
        decreases self,
    {
        match self {
            AeroXError::Io(m) => prefixed("IO 错误: ", m),
            AeroXError::Config(m) => prefixed("配置错误: ", m),
            AeroXError::Network(m) => prefixed("网络错误: ", m),
            AeroXError::Protocol(m) => prefixed("协议错误: ", m),
            AeroXError::Router(m) => prefixed("路由错误: ", m),
            AeroXError::Plugin(m) => prefixed("插件错误: ", m),
            AeroXError::Serialization(m) => prefixed("序列化错误: ", m),
            AeroXError::Connection(m) => prefixed("连接错误: ", m),
            AeroXError::Timeout => "操作超时".to_string(),
            AeroXError::Unimplemented(m) => prefixed("未实现的特性: ", m),
            AeroXError::Validation(m) => prefixed("验证失败: ", m),
            AeroXError::WithContext(inner, _) => inner.to_string(),
        }
    }

    /// A configuration error.
    pub fn config(msg: &str) -> (r: AeroXError)
        ensures
            r matches AeroXError::Config(m) && m@ == msg@,
    {
        AeroXError::Config(msg.to_string())
    }

    /// A network error.
    pub fn network(msg: &str) -> (r: AeroXError)
        ensures
            r matches AeroXError::Network(m) && m@ == msg@,
    {
        AeroXError::Network(msg.to_string())
    }

    /// A protocol error.
    pub fn protocol(msg: &str) -> (r: AeroXError)
        ensures
            r matches AeroXError::Protocol(m) && m@ == msg@,
    {
        AeroXError::Protocol(msg.to_string())
    }

    /// A routing error.
    pub fn router(msg: &str) -> (r: AeroXError)
        ensures
            r matches AeroXError::Router(m) && m@ == msg@,
    {
        AeroXError::Router(msg.to_string())
    }

    /// A plugin error.
    pub fn plugin(msg: &str) -> (r: AeroXError)
        ensures
            r matches AeroXError::Plugin(m) && m@ == msg@,
    {
        AeroXError::Plugin(msg.to_string())
    }

    /// A serialization error.
    pub fn serialization(msg: &str) -> (r: AeroXError)
        ensures
            r matches AeroXError::Serialization(m) && m@ == msg@,
    {
        AeroXError::Serialization(msg.to_string())
    }

    /// A connection error.
    pub fn connection(msg: &str) -> (r: AeroXError)
        ensures
            r matches AeroXError::Connection(m) && m@ == msg@,
    {
        AeroXError::Connection(msg.to_string())
    }

    /// The timeout error.
    pub fn timeout() -> (r: AeroXError)
        ensures
            r is Timeout,
    {
        AeroXError::Timeout
    }

    /// An error for a feature that is not there.
    pub fn unimplemented(msg: &str) -> (r: AeroXError)
        ensures
            r matches AeroXError::Unimplemented(m) && m@ == msg@,
    {
        AeroXError::Unimplemented(msg.to_string())
    }

    /// A validation error.
    pub fn validation(msg: &str) -> (r: AeroXError)
        ensures
            r matches AeroXError::Validation(m) && m@ == msg@,
    {
        AeroXError::Validation(msg.to_string())
    }
}

#[verifier::external_type_specification]
#[verifier::external_body]
pub struct ExIoError(std::io::Error);

/// Relies on the `Display` impl of `std::io::Error`: its text. That text
/// depends on the operating system, so nothing is promised of it.
#[verifier::external_body]
fn io_error_text(e: &std::io::Error) -> (r: String) {
    e.to_string()
}

impl From<std::io::Error> for AeroXError {
    fn from(e: std::io::Error) -> (r: AeroXError) {
        AeroXError::Io(io_error_text(&e))
    }
}

impl vstd::std_specs::convert::FromSpecImpl<std::io::Error> for AeroXError {
    open spec fn obeys_from_spec() -> bool {
        false
    }

    open spec fn from_spec(e: std::io::Error) -> AeroXError {
        arbitrary()
    }
}

/// Errors of the client side.
#[derive(Debug)]
pub enum ClientError {
    ConnectionFailed(String),
    NotConnected,
    SendFailed(String),
    ReceiveFailed(String),
    HandlerError(u16, String),
    ReconnectExhausted(usize),
    Timeout(String),
    InvalidConfig(String),
}

/// The display text of a client error.
pub open spec fn client_error_text(e: ClientError) -> Seq<char> {
    match e {
        ClientError::ConnectionFailed(m) => "Connection failed: "@ + m@,
        ClientError::NotConnected => "Not connected"@,
        ClientError::SendFailed(m) => "Send failed: "@ + m@,
        ClientError::ReceiveFailed(m) => "Receive failed: "@ + m@,
        ClientError::HandlerError(id, m) => "Handler error for message "@ + decimal(id as nat) + ": "@
            + m@,
        ClientError::ReconnectExhausted(n) => "Reconnect exhausted after "@ + decimal(n as nat)
            + " attempts"@,
        ClientError::Timeout(m) => "Timeout: "@ + m@,
        ClientError::InvalidConfig(m) => "Invalid configuration: "@ + m@,
    }
}

/// The framework error kind that a client error maps to.
pub open spec fn client_error_kind(e: ClientError) -> AeroXErrorKind {
    match e {
        ClientError::ConnectionFailed(_) => AeroXErrorKind::Connection,
        ClientError::NotConnected => AeroXErrorKind::Connection,
        ClientError::SendFailed(_) => AeroXErrorKind::Network,
        ClientError::ReceiveFailed(_) => AeroXErrorKind::Network,
        ClientError::HandlerError(_, _) => AeroXErrorKind::Plugin,
        ClientError::ReconnectExhausted(_) => AeroXErrorKind::Connection,
        ClientError::Timeout(_) => AeroXErrorKind::Timeout,
        ClientError::InvalidConfig(_) => AeroXErrorKind::Config,
    }
}

impl ClientError {
    /// The display text of this error.
    pub fn to_string(&self) -> (r: String)
        ensures
            r@ == client_error_text(*self),
    {
        match self {
            ClientError::ConnectionFailed(m) => prefixed("Connection failed: ", m),
            ClientError::NotConnected => "Not connected".to_string(),
            ClientError::SendFailed(m) => prefixed("Send failed: ", m),
            ClientError::ReceiveFailed(m) => prefixed("Receive failed: ", m),
            ClientError::HandlerError(id, m) => {
                let mut s = "Handler error for message ".to_string();
                push_decimal(&mut s, *id as u64);
                s.append(": ");
                s.append(m.as_str());
                s
            },
            ClientError::ReconnectExhausted(n) => {
                let mut s = "Reconnect exhausted after ".to_string();
                push_decimal(&mut s, *n as u64);
                s.append(" attempts");
                s
            },
            ClientError::Timeout(m) => prefixed("Timeout: ", m),
            ClientError::InvalidConfig(m) => prefixed("Invalid configuration: ", m),
        }
    }

    /// The framework error for this client error.
    pub fn into_framework(self) -> (r: AeroXError)
        ensures
            kind_of(r) == client_error_kind(self),
            self matches ClientError::ConnectionFailed(m) ==> (r matches AeroXError::Connection(n) && n@ == m@),
            self matches ClientError::SendFailed(m) ==> (r matches AeroXError::Network(n) && n@ == m@),
            self matches ClientError::ReceiveFailed(m) ==> (r matches AeroXError::Network(n) && n@ == m@),
            self matches ClientError::InvalidConfig(m) ==> (r matches AeroXError::Config(n) && n@ == m@),
            self is NotConnected ==> (r matches AeroXError::Connection(n) && n@ == "Not connected"@),
            self matches ClientError::HandlerError(id, m) ==> (r matches AeroXError::Plugin(n) && n@
                == "Handler "@ + decimal(id as nat) + " error: "@ + m@),
            self matches ClientError::ReconnectExhausted(k) ==> (r matches AeroXError::Connection(n)
                && n@ == "Reconnect failed after "@ + decimal(k as nat) + " attempts"@),
    {
        match self {
            ClientError::ConnectionFailed(m) => AeroXError::Connection(m),
            ClientError::NotConnected => AeroXError::connection("Not connected"),
            ClientError::SendFailed(m) => AeroXError::Network(m),
            ClientError::ReceiveFailed(m) => AeroXError::Network(m),
            ClientError::HandlerError(id, m) => {
                let mut s = "Handler ".to_string();
                push_decimal(&mut s, id as u64);
                s.append(" error: ");
                s.append(m.as_str());
                AeroXError::Plugin(s)
            },
            ClientError::ReconnectExhausted(n) => {
                let mut s = "Reconnect failed after ".to_string();
                push_decimal(&mut s, n as u64);
                s.append(" attempts");
                AeroXError::Connection(s)
            },
            ClientError::Timeout(_) => AeroXError::Timeout,
            ClientError::InvalidConfig(m) => AeroXError::Config(m),
        }
    }
}

impl From<ClientError> for AeroXError {
    fn from(e: ClientError) -> (r: AeroXError) {
        e.into_framework()
    }
}

impl vstd::std_specs::convert::FromSpecImpl<ClientError> for AeroXError {
    open spec fn obeys_from_spec() -> bool {
        false
    }

    open spec fn from_spec(e: ClientError) -> AeroXError {
        arbitrary()
    }
}

/// Errors of configuration handling.
#[derive(Debug)]
pub enum ConfigError {
    Io(String),
    Parse(String),
    Validation(String),
    EnvVar(String),
}

/// The display text of a configuration error.
pub open spec fn config_error_text(e: ConfigError) -> Seq<char> {
    match e {
        ConfigError::Io(m) => "IO 错误: "@ + m@,
        ConfigError::Parse(m) => "解析配置文件失败: "@ + m@,
        ConfigError::Validation(m) => "配置验证失败: "@ + m@,
        ConfigError::EnvVar(m) => "环境变量解析失败: "@ + m@,
    }
}

impl ConfigError {
    /// The display text of this error.
    pub fn to_string(&self) -> (r: String)
        ensures
            r@ == config_error_text(*self),
    {
        match self {
            ConfigError::Io(m) => prefixed("IO 错误: ", m),
            ConfigError::Parse(m) => prefixed("解析配置文件失败: ", m),
            ConfigError::Validation(m) => prefixed("配置验证失败: ", m),
            ConfigError::EnvVar(m) => prefixed("环境变量解析失败: ", m),
        }
    }
}

/// Errors of the transport layer.
#[derive(Debug)]
pub enum TransportError {
    Io(String),
    Connection(String),
    Timeout,
}

/// Errors of a table of named routes.
#[derive(Debug, Clone, Copy, PartialEq, Eq, Structural)]
pub enum RouterError {
    RouteNotFound(u32),
    RouteAlreadyExists(u32),
}

/// The umbrella error of the crate's entry points.
#[derive(Debug)]
pub enum Error {
    Core(AeroXError),
    Client(ClientError),
    Config(ConfigError),
    Io(String),
    Custom(String),
}

impl Error {
    /// The framework error that a handler failing with this error reports:
    /// framework errors pass through, the others become network errors,
    /// and configuration errors configuration errors, carrying their text.
    pub fn into_core(self) -> (r: AeroXError)
        ensures
            self matches Error::Core(e) ==> r == e,
            self matches Error::Client(e) ==> (r matches AeroXError::Network(m) && m@ == client_error_text(e)),
            self matches Error::Config(e) ==> (r matches AeroXError::Config(m) && m@ == config_error_text(e)),
            self matches Error::Io(s) ==> (r matches AeroXError::Network(m) && m@ == s@),
            self matches Error::Custom(s) ==> (r matches AeroXError::Network(m) && m@ == s@),
    {
        match self {
            Error::Core(e) => e,
            Error::Client(e) => AeroXError::Network(e.to_string()),
            Error::Config(e) => AeroXError::Config(e.to_string()),
            Error::Io(s) => AeroXError::Network(s),
            Error::Custom(s) => AeroXError::Network(s),
        }
    }
}

} // verus!
