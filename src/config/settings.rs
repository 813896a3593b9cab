use vstd::prelude::*;
use vstd::string::StringExecFns;
use crate::text::{decimal, push_decimal};
use crate::types::errors::BrowserMcpError;

verus! {

/// The whole configuration of the server.
pub struct ServerConfig {
    pub server: ServerSettings,
    pub cache: CacheSettings,
    pub connections: ConnectionSettings,
    pub monitoring: MonitoringSettings,
}

pub struct ServerSettings {
    pub host: String,
    pub port: u16,
    pub worker_threads: Option<usize>,
    pub max_connections: usize,
    pub request_timeout_secs: u64,
    pub cors_origins: Vec<String>,
}

pub struct CacheSettings {
    pub max_size_mb: usize,
    pub cleanup_interval_secs: u64,
    pub data_ttl_secs: u64,
    pub enable_persistent_cache: bool,
}

pub struct ConnectionSettings {
    pub websocket_timeout_secs: u64,
    pub health_check_interval_secs: u64,
    pub max_connections_per_tab: usize,
    pub heartbeat_interval_secs: u64,
    pub connection_retry_attempts: usize,
}

pub struct MonitoringSettings {
    pub enable_metrics: bool,
    pub prometheus_port: Option<u16>,
    pub log_level: String,
    pub enable_request_logging: bool,
    pub enable_performance_monitoring: bool,
}

/// The port both the tool endpoint and the extension socket listen on by default.
pub const DEFAULT_PORT: u16 = 6009;

impl Default for ServerConfig {
    fn default() -> (r: Self)
        ensures
            r.server.host@ == "127.0.0.1"@,
            r.server.port == DEFAULT_PORT,
            r.server.worker_threads is None,
            r.server.max_connections == 1000,
            r.server.request_timeout_secs == 30,
            r.server.cors_origins@.len() == 1,
            r.server.cors_origins@[0]@ == "*"@,
            r.cache.max_size_mb == 512,
            r.cache.cleanup_interval_secs == 300,
            r.cache.data_ttl_secs == 3600,
            !r.cache.enable_persistent_cache,
            r.connections.websocket_timeout_secs == 300,
            r.connections.health_check_interval_secs == 30,
            r.connections.max_connections_per_tab == 10,
            r.connections.heartbeat_interval_secs == 30,
            r.connections.connection_retry_attempts == 3,
            r.monitoring.enable_metrics,
            r.monitoring.prometheus_port == Some(9090u16),
            r.monitoring.log_level@ == "info"@,
            r.monitoring.enable_request_logging,
            r.monitoring.enable_performance_monitoring,
    {
        let mut cors_origins: Vec<String> = Vec::new();
        cors_origins.push(String::from_str("*"));
        ServerConfig {
            server: ServerSettings {
                host: String::from_str("127.0.0.1"),
                port: DEFAULT_PORT,
                worker_threads: None,
                max_connections: 1000,
                request_timeout_secs: 30,
                cors_origins,
            },
            cache: CacheSettings {
                max_size_mb: 512,
                cleanup_interval_secs: 300,
                data_ttl_secs: 3600,
                enable_persistent_cache: false,
            },
            connections: ConnectionSettings {
                websocket_timeout_secs: 300,
                health_check_interval_secs: 30,
                max_connections_per_tab: 10,
                heartbeat_interval_secs: 30,
                connection_retry_attempts: 3,
            },
            monitoring: MonitoringSettings {
                enable_metrics: true,
                prometheus_port: Some(9090),
                log_level: String::from_str("info"),
                enable_request_logging: true,
                enable_performance_monitoring: true,
            },
        }
    }
}

/// `host:port`.
pub open spec fn address_of(host: Seq<char>, port: u16) -> Seq<char> {
    host + ":"@ + decimal(port as nat)
}

fn address(host: &String, port: u16) -> (r: String)
    ensures
        r@ == address_of(host@, port),
{
    let mut s = String::from_str(host.as_str());
    s.append(":");
    push_decimal(&mut s, port as u64);
    s
}

impl ServerConfig {
    /// Refuses a zero port, a zero cache size and a zero per-tab connection limit,
    /// checked in that order.
    pub fn validate(&self) -> (r: Result<(), BrowserMcpError>)
        ensures
            r is Ok <==> self.server.port != 0 && self.cache.max_size_mb != 0
                && self.connections.max_connections_per_tab != 0,
            r matches Err(e) ==> e matches BrowserMcpError::ConfigError { message } && message@ == if self.server.port == 0 {
                "Server port cannot be 0"@
            } else if self.cache.max_size_mb == 0 {
                "Cache size must be greater than 0"@
            } else {
                "Max connections per tab must be greater than 0"@
            },
    {
        if self.server.port == 0 {
            return Err(BrowserMcpError::ConfigError { message: String::from_str("Server port cannot be 0") });
        }
        if self.cache.max_size_mb == 0 {
            return Err(BrowserMcpError::ConfigError { message: String::from_str("Cache size must be greater than 0") });
        }
        if self.connections.max_connections_per_tab == 0 {
            return Err(BrowserMcpError::ConfigError {
                message: String::from_str("Max connections per tab must be greater than 0"),
            });
        }
        Ok(())
    }

    pub fn get_mcp_address(&self) -> (r: String)
        ensures
            r@ == address_of(self.server.host@, self.server.port),
    {
        address(&self.server.host, self.server.port)
    }

    /// The extension socket shares the tool endpoint's address.
    pub fn get_websocket_address(&self) -> (r: String)
        ensures
            r@ == address_of(self.server.host@, self.server.port),
    {
        address(&self.server.host, self.server.port)
    }

    pub fn get_prometheus_address(&self) -> (r: Option<String>)
        ensures
            r is Some <==> self.monitoring.prometheus_port is Some,
            r matches Some(a) ==> a@ == address_of(self.server.host@, self.monitoring.prometheus_port->Some_0),
    {
        match self.monitoring.prometheus_port {
            Some(p) => Some(address(&self.server.host, p)),
            None => None,
        }
    }
}

} // verus!
