//! Configuration values the supervisor works from.
use vstd::prelude::*;

verus! {

/// Restart budget of a service whose configuration names none.
pub const DEFAULT_RESTARTS: u16 = 3;

/// Liveness timeout, in seconds, of a service whose configuration names none.
pub const DEFAULT_TIMEOUT: u32 = 10;

/// Protocol of a pre-opened listening socket.
#[allow(non_camel_case_types)]
#[derive(Clone, Copy, Debug, PartialEq, Eq, Structural)]
pub enum Proto {
    tcp4,
    tcp6,
    unix,
}

/// A listening socket that the master opens before any worker starts.
#[derive(Clone, Debug)]
pub struct SocketConfig {
    pub name: String,
    pub port: u32,
    pub host: Option<String>,
    pub backlog: u16,
    pub proto: Proto,
    /// Names of the services that inherit this socket.
    pub service: Vec<String>,
    pub app: Option<String>,
    pub arguments: Vec<String>,
}

/// The immutable description of one supervised service.
#[derive(Clone, Debug)]
pub struct ServiceConfig {
    /// Service name.
    pub name: String,
    /// Number of worker slots.
    pub num: u16,
    /// Command each worker runs.
    pub command: String,
    /// Failed starts tolerated before a slot is marked failed.
    pub restarts: u16,
    /// Working directory of the workers.
    pub directory: Option<String>,
    /// Group id the workers switch to.
    pub gid: Option<u32>,
    /// User id the workers switch to.
    pub uid: Option<u32>,
    /// Seconds of heartbeat silence after which a worker is killed.
    pub timeout: u32,
    /// Seconds a worker has to report that it loaded.
    pub startup_timeout: u32,
    /// Seconds a worker has to exit after a graceful stop.
    pub shutdown_timeout: u32,
    /// File that receives the workers' standard output.
    pub stdout: Option<String>,
    /// File that receives the workers' standard error.
    pub stderr: Option<String>,
}

/// Where and how the master logs.
#[derive(Clone, Debug)]
pub struct LoggingConfig {
    pub name: String,
    pub service: String,
    pub level: Option<String>,
    pub facility: Option<String>,
}

impl Default for LoggingConfig {
    /// Console logging at level `info`.
    fn default() -> (r: Self)
        ensures
            r.name@ == "default"@,
            r.service@ == "console"@,
            r.level.is_some() && r.level.unwrap()@ == "info"@,
            r.facility.is_none(),
    {
        LoggingConfig {
            name: String::from_str("default"),
            service: String::from_str("console"),
            level: Some(String::from_str("info")),
            facility: None,
        }
    }
}

} // verus!
