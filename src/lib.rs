//! AeroX: a length-prefixed frame transport for realtime message servers.
//!
//! This crate holds the verified core: the frame codec, connection
//! bookkeeping, worker balancing, routing tables, middleware ordering,
//! configuration checks and the error taxonomy.
use vstd::prelude::*;

pub mod addr;
pub mod balancer;
pub mod bytes_le;
pub mod client;
pub mod codec;
pub mod config;
pub mod connection;
pub mod context;
pub mod error;
pub mod frame;
pub mod manager;
pub mod metrics;
pub mod middleware;
pub mod plugin;
pub mod pool;
pub mod registry;
pub mod router;
pub mod text;

pub use crate::addr::parse_addr;
pub use crate::balancer::ConnectionBalancer;
pub use crate::client::ClientState;
pub use crate::codec::{MessageCodec, MessageDecoder, MessageEncoder};
pub use crate::config::{
    ConnectionManagerConfig, ReactorConfig, ServerConfig, WorkerConfig,
};
pub use crate::connection::{Connection, ConnectionId, ConnectionIdGenerator, ConnectionState};
pub use crate::context::{Context, Extensions};
pub use crate::error::{
    AeroXError, AeroXErrorKind, ClientError, ConfigError, Error, ErrorContext, RouterError,
    TransportError,
};
pub use crate::frame::{Frame, FrameError, HEADER_SIZE, LENGTH_SIZE, MAX_BODY_SIZE};
pub use crate::manager::ConnectionManager;
pub use crate::metrics::ConnectionMetrics;
pub use crate::middleware::{
    Chain, ChainEvent, LoggingMiddleware, Next, Stack, Step, TimeoutMiddleware,
};
pub use crate::plugin::{HeartbeatPlugin, Plugin, PluginRegistry, RateLimitPlugin};
pub use crate::pool::ConnectionPool;
pub use crate::registry::{unwrap_message, wrap_message, MessageRegistry, RegistryError};
pub use crate::router::Router;

verus! {

} // verus!
