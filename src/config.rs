//! Server, reactor and connection-manager settings, with their checks.
use vstd::prelude::*;
use crate::error::ConfigError;
use crate::text::{decimal, push_decimal};

verus! {

broadcast use vstd::string::group_string_axioms;

/// Largest worker-thread count that a configuration may ask for.
pub const MAX_WORKER_THREADS: usize = 512;

/// Settings of the listening server.
#[derive(Clone, Debug)]
pub struct ServerConfig {
    pub bind_address: String,
    pub port: u16,
    pub max_connections: Option<u32>,
    pub max_requests_per_second_per_connection: Option<u32>,
    pub max_requests_per_second_total: Option<u32>,
    pub enable_ddos_protection: bool,
    pub worker_threads: Option<usize>,
}

/// Settings of the reactor's workers.
#[derive(Clone, Debug)]
pub struct ReactorConfig {
    pub reactor_buffer_size: usize,
    pub batch_size: usize,
    pub batch_timeout_ms: u64,
    pub connection_timeout_secs: u64,
}

/// Settings of idle-connection reaping.
#[derive(Clone, Debug)]
pub struct ConnectionManagerConfig {
    pub idle_timeout_secs: u64,
    pub enable_auto_cleanup: bool,
    pub cleanup_interval_secs: u64,
}

/// Settings of one worker.
#[derive(Clone, Debug)]
pub struct WorkerConfig {
    pub id: usize,
    pub channel_size: usize,
}

/// Default listening host.
pub fn default_bind_address() -> (r: String)
    ensures
        r@ == "0.0.0.0"@,
{
    "0.0.0.0".to_string()
}

/// Default listening port.
pub fn default_port() -> (r: u16)
    ensures
        r == 8080,
{
    8080
}

/// Default request rate limit per connection.
pub fn default_max_requests_per_second_per_connection() -> (r: Option<u32>)
    ensures
        r == Some(1000u32),
{
    Some(1000)
}

/// Default request rate limit for the whole server.
pub fn default_max_requests_per_second_total() -> (r: Option<u32>)
    ensures
        r == Some(100000u32),
{
    Some(100000)
}

/// Whether flood protection is on by default.
pub fn default_enable_ddos_protection() -> (r: bool)
    ensures
        r,
{
    true
}

/// Default worker mailbox capacity.
pub fn default_reactor_buffer_size() -> (r: usize)
    ensures
        r == 8192,
{
    8192
}

/// Default batch size.
pub fn default_batch_size() -> (r: usize)
    ensures
        r == 32,
{
    32
}

/// Default batch timeout in milliseconds.
pub fn default_batch_timeout() -> (r: u64)
    ensures
        r == 10,
{
    10
}

/// Default idle-reaper threshold in seconds.
pub fn default_connection_timeout() -> (r: u64)
    ensures
        r == 300,
{
    300
}

/// A limit that, when present, is positive.
pub open spec fn positive_if_set(v: Option<u32>) -> bool {
    match v {
        Some(n) => n > 0,
        None => true,
    }
}

/// The message for the first rule that `c` breaks, checked in this order:
/// port, address, worker threads, connection cap, the two rate limits.
pub open spec fn first_violation(c: ServerConfig) -> Option<Seq<char>> {
    if c.port == 0 {
        Some("端口不能为 0"@)
    } else if c.bind_address@.len() == 0 {
        Some("绑定地址不能为空"@)
    } else if c.worker_threads == Some(0usize) {
        Some("工作线程数不能为 0"@)
    } else if c.worker_threads matches Some(t) && t > MAX_WORKER_THREADS {
        Some("工作线程数过大 (建议 <= 512)"@)
    } else if !positive_if_set(c.max_connections) {
        Some("最大连接数不能为 0"@)
    } else if !positive_if_set(c.max_requests_per_second_per_connection) {
        Some("每连接请求数不能为 0"@)
    } else if !positive_if_set(c.max_requests_per_second_total) {
        Some("全局请求数不能为 0"@)
    } else {
        None
    }
}

/// Debug text of an optional count: `Some(n)` or `None`.
pub open spec fn option_text(v: Option<nat>) -> Seq<char> {
    match v {
        Some(n) => "Some("@ + decimal(n) + ")"@,
        None => "None"@,
    }
}

/// Text of a flag.
pub open spec fn bool_text(b: bool) -> Seq<char> {
    if b {
        "true"@
    } else {
        "false"@
    }
}

fn push_option(s: &mut String, v: Option<u64>)
    ensures
        final(s)@ == old(s)@ + option_text(
            match v {
                Some(n) => Some(n as nat),
                None => None,
            },
        ),
{
    match v {
        Some(n) => {
            s.append("Some(");
            push_decimal(s, n);
            s.append(")");
        },
        None => s.append("None"),
    }
    assert(s@ =~= old(s)@ + option_text(
        match v {
            Some(n) => Some(n as nat),
            None => None,
        },
    ));
}

impl Default for ServerConfig {
    fn default() -> (r: ServerConfig)
        ensures
            r.bind_address@ == "0.0.0.0"@,
            r.port == 8080,
            r.max_connections is None,
            r.max_requests_per_second_per_connection == Some(1000u32),
            r.max_requests_per_second_total == Some(100000u32),
            r.enable_ddos_protection,
            r.worker_threads is None,
    {
        ServerConfig {
            bind_address: default_bind_address(),
            port: default_port(),
            max_connections: None,
            max_requests_per_second_per_connection: default_max_requests_per_second_per_connection(),
            max_requests_per_second_total: default_max_requests_per_second_total(),
            enable_ddos_protection: default_enable_ddos_protection(),
            worker_threads: None,
        }
    }
}

impl Default for ReactorConfig {
    fn default() -> (r: ReactorConfig)
        ensures
            r.reactor_buffer_size == 8192,
            r.batch_size == 32,
            r.batch_timeout_ms == 10,
            r.connection_timeout_secs == 300,
    {
        ReactorConfig {
            reactor_buffer_size: default_reactor_buffer_size(),
            batch_size: default_batch_size(),
            batch_timeout_ms: default_batch_timeout(),
            connection_timeout_secs: default_connection_timeout(),
        }
    }
}

impl Default for ConnectionManagerConfig {
    fn default() -> (r: ConnectionManagerConfig)
        ensures
            r.idle_timeout_secs == 300,
            r.enable_auto_cleanup,
            r.cleanup_interval_secs == 60,
    {
        ConnectionManagerConfig { idle_timeout_secs: 300, enable_auto_cleanup: true, cleanup_interval_secs: 60 }
    }
}

impl Default for WorkerConfig {
    fn default() -> (r: WorkerConfig)
        ensures
            r.id == 0,
            r.channel_size == 1024,
    {
        WorkerConfig { id: 0, channel_size: 1024 }
    }
}

/// Relies on `num_cpus::get`: the number of logical CPUs this process may
/// use. It depends on the machine, so nothing is promised of it.
#[verifier::external_body]
fn logical_cpus() -> (r: usize) {
    num_cpus::get()
}

impl ServerConfig {
    /// Checks the rules of a usable configuration: a nonzero port, a
    /// nonempty address, a worker-thread count in `1..=512` if given, and
    /// positive limits where given. The error names the first broken rule.
    pub fn validate(&self) -> (r: Result<(), ConfigError>)
        ensures
            r is Ok <==> first_violation(*self) is None,
            r is Err ==> (r->Err_0 matches ConfigError::Validation(m) && Some(m@) == first_violation(
                *self,
            )),
    {
        if self.port == 0 {
            return Err(ConfigError::Validation("端口不能为 0".to_string()));
        }
        if self.bind_address.as_str().unicode_len() == 0 {
            return Err(ConfigError::Validation("绑定地址不能为空".to_string()));
        }
        match self.worker_threads {
            Some(threads) => {
                if threads == 0 {
                    return Err(ConfigError::Validation("工作线程数不能为 0".to_string()));
                }
                if threads > MAX_WORKER_THREADS {
                    return Err(ConfigError::Validation("工作线程数过大 (建议 <= 512)".to_string()));
                }
            },
            None => {},
        }
        match self.max_connections {
            Some(n) => {
                if n == 0 {
                    return Err(ConfigError::Validation("最大连接数不能为 0".to_string()));
                }
            },
            None => {},
        }
        match self.max_requests_per_second_per_connection {
            Some(n) => {
                if n == 0 {
                    return Err(ConfigError::Validation("每连接请求数不能为 0".to_string()));
                }
            },
            None => {},
        }
        match self.max_requests_per_second_total {
            Some(n) => {
                if n == 0 {
                    return Err(ConfigError::Validation("全局请求数不能为 0".to_string()));
                }
            },
            None => {},
        }
        Ok(())
    }

    /// `host:port`.
    pub fn bind_addr(&self) -> (r: String)
        ensures
            r@ == self.bind_address@ + ":"@ + decimal(self.port as nat),
    {
        let mut s = self.bind_address.clone();
        s.append(":");
        push_decimal(&mut s, self.port as u64);
        s
    }

    /// A short human-readable report.
    pub fn summary(&self) -> (r: String)
        ensures
            r@ == "AeroX 服务器配置:\n  地址: "@ + self.bind_address@ + ":"@ + decimal(self.port as nat)
                + "\n  最大连接数: "@ + option_text(
                match self.max_connections {
                    Some(n) => Some(n as nat),
                    None => None,
                },
            ) + "\n  DDoS 防护: "@ + bool_text(self.enable_ddos_protection) + "\n  工作线程: "@
                + option_text(
                match self.worker_threads {
                    Some(n) => Some(n as nat),
                    None => None,
                },
            ),
    {
        let mut s = "AeroX 服务器配置:\n  地址: ".to_string();
        let addr = self.bind_addr();
        s.append(addr.as_str());
        s.append("\n  最大连接数: ");
        push_option(
            &mut s,
            match self.max_connections {
                Some(n) => Some(n as u64),
                None => None,
            },
        );
        s.append("\n  DDoS 防护: ");
        if self.enable_ddos_protection {
            s.append("true");
        } else {
            s.append("false");
        }
        s.append("\n  工作线程: ");
        push_option(
            &mut s,
            match self.worker_threads {
                Some(n) => Some(n as u64),
                None => None,
            },
        );
        assert(s@ =~= "AeroX 服务器配置:\n  地址: "@ + self.bind_address@ + ":"@ + decimal(self.port as nat)
            + "\n  最大连接数: "@ + option_text(
            match self.max_connections {
                Some(n) => Some(n as nat),
                None => None,
            },
        ) + "\n  DDoS 防护: "@ + bool_text(self.enable_ddos_protection) + "\n  工作线程: "@
            + option_text(
            match self.worker_threads {
                Some(n) => Some(n as nat),
                None => None,
            },
        ));
        s
    }

    /// The number of workers to start: the configured count, else the
    /// number of logical CPUs, and at least one.
    pub fn effective_worker_count(&self) -> (r: usize)
        ensures
            r >= 1,
            self.worker_threads matches Some(n) ==> (n >= 1 ==> r == n),
    {
        match self.worker_threads {
            Some(n) => {
                if n >= 1 {
                    return n;
                }
                1
            },
            None => {
                let cpus = logical_cpus();
                if cpus >= 1 {
                    cpus
                } else {
                    1
                }
            },
        }
    }
}

} // verus!
