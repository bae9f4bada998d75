//! Test configuration.

use crate::net::IpAddr;
use crate::time::Duration;
use vstd::prelude::*;
use vstd::string::*;

verus! {

/// Transport protocol type for network testing.
#[derive(Debug, Clone, Copy, PartialEq, Eq, Structural)]
pub enum Protocol {
    /// Transmission Control Protocol - provides reliable, ordered delivery
    Tcp,
    /// User Datagram Protocol - provides best-effort delivery with lower overhead
    Udp,
}

/// The name of a protocol.
pub open spec fn protocol_name(protocol: Protocol) -> Seq<char> {
    match protocol {
        Protocol::Tcp => "Tcp"@,
        Protocol::Udp => "Udp"@,
    }
}

impl Protocol {
    /// Returns the protocol name as a static string.
    pub fn as_str(self) -> (r: &'static str)
        ensures
            r@ == protocol_name(self),
    {
        match self {
            Protocol::Tcp => "Tcp",
            Protocol::Udp => "Udp",
        }
    }
}

/// Test mode: client or server.
#[derive(Debug, Clone, Copy, PartialEq, Eq, Structural)]
pub enum Mode {
    /// Server mode - listens for incoming connections
    Server,
    /// Client mode - connects to a server and initiates tests
    Client,
}

/// One-way test mode for unidirectional testing.
///
/// Allows tests where traffic flows in only one direction.
#[derive(Debug, Clone, Copy, PartialEq, Eq, Structural)]
pub enum OneWayMode {
    /// No one-way mode (use Normal/Reverse)
    Off,
    /// Client sends, server receives (no reverse traffic)
    Send,
    /// Server sends, client receives (no reverse traffic)
    Receive,
}

impl Default for OneWayMode {
    fn default() -> (r: Self)
        ensures
            r == OneWayMode::Off,
    {
        OneWayMode::Off
    }
}

/// Configuration for network performance tests.
///
/// This structure holds all configuration parameters for both client and server modes.
/// Use the builder pattern methods to customize the configuration.
#[derive(Debug)]
pub struct Config {
    /// Server mode or client mode
    pub mode: Mode,
    /// Protocol to use (TCP or UDP)
    pub protocol: Protocol,
    /// Port number to use
    pub port: u16,
    /// Server address (for client mode)
    pub server_addr: Option<String>,
    /// Bind address (for server mode)
    pub bind_addr: Option<IpAddr>,
    /// Test duration
    pub duration: Duration,
    /// Target bandwidth in bits per second
    pub bandwidth: Option<u64>,
    /// Buffer size in bytes
    pub buffer_size: usize,
    /// Number of parallel streams
    pub parallel: usize,
    /// Reverse mode (server sends, client receives)
    pub reverse: bool,
    /// Output in JSON format
    pub json: bool,
    /// Interval for periodic bandwidth reports
    pub interval: Duration,
    /// One-way test mode (Off/Send/Receive)
    pub one_way: OneWayMode,
    /// Expected packets per second for one-way mode (for packet loss calculation)
    pub expected_pps: Option<u64>,
    /// Socket buffer size in bytes (0 = use default)
    pub socket_buf: usize,
    /// Number of receiver threads for UDP one-way tests
    pub recv_workers: usize,
}

/// The configuration that every other one starts from.
pub open spec fn default_config() -> Config {
    Config {
        mode: Mode::Client,
        protocol: Protocol::Tcp,
        port: 5201,
        server_addr: None,
        bind_addr: None,
        duration: Duration { nanos: 10_000_000_000 },
        bandwidth: None,
        buffer_size: 131072,
        parallel: 1,
        reverse: false,
        json: false,
        interval: Duration { nanos: 1_000_000_000 },
        one_way: OneWayMode::Off,
        expected_pps: None,
        socket_buf: 0,
        recv_workers: 1,
    }
}

impl Default for Config {
    fn default() -> (r: Self)
        ensures
            r == default_config(),
    {
        Config {
            mode: Mode::Client,
            protocol: Protocol::Tcp,
            port: 5201,
            server_addr: None,
            bind_addr: None,
            duration: Duration::from_secs(10),
            bandwidth: None,
            buffer_size: 128 * 1024,
            parallel: 1,
            reverse: false,
            json: false,
            interval: Duration::from_secs(1),
            one_way: OneWayMode::Off,
            expected_pps: None,
            socket_buf: 0,
            recv_workers: 1,
        }
    }
}

impl Clone for Config {
    fn clone(&self) -> (r: Self)
        ensures
            r == *self,
    {
        Config {
            mode: self.mode,
            protocol: self.protocol,
            port: self.port,
            server_addr: match &self.server_addr {
                Some(addr) => Some(addr.clone()),
                None => None,
            },
            bind_addr: self.bind_addr,
            duration: self.duration,
            bandwidth: self.bandwidth,
            buffer_size: self.buffer_size,
            parallel: self.parallel,
            reverse: self.reverse,
            json: self.json,
            interval: self.interval,
            one_way: self.one_way,
            expected_pps: self.expected_pps,
            socket_buf: self.socket_buf,
            recv_workers: self.recv_workers,
        }
    }
}

impl Config {
    /// Creates a new configuration with default values: client mode with TCP protocol.
    pub fn new() -> (r: Self)
        ensures
            r == default_config(),
    {
        Self::default()
    }

    /// Creates a new server configuration, which listens on the given port.
    pub fn server(port: u16) -> (r: Self)
        ensures
            r == (Config { mode: Mode::Server, port, ..default_config() }),
    {
        let mut config: Config = Self::default();
        config.mode = Mode::Server;
        config.port = port;
        config
    }

    /// Creates a new client configuration, which connects to a server.
    pub fn client(server_addr: String, port: u16) -> (r: Self)
        ensures
            r == (Config {
                mode: Mode::Client,
                server_addr: Some(server_addr),
                port,
                ..default_config()
            }),
    {
        let mut config: Config = Self::default();
        config.mode = Mode::Client;
        config.server_addr = Some(server_addr);
        config.port = port;
        config
    }

    /// Sets the protocol to use for the test.
    pub fn with_protocol(self, protocol: Protocol) -> (r: Self)
        ensures
            r == (Config { protocol, ..self }),
    {
        let mut config: Config = self;
        config.protocol = protocol;
        config
    }

    /// Sets the test duration.
    pub fn with_duration(self, duration: Duration) -> (r: Self)
        ensures
            r == (Config { duration, ..self }),
    {
        let mut config: Config = self;
        config.duration = duration;
        config
    }

    /// Sets the target bandwidth in bits per second.
    ///
    /// The bandwidth limiter uses a rate-based algorithm that checks bandwidth every millisecond
    /// and sleeps when sending too fast.
    pub fn with_bandwidth(self, bandwidth: u64) -> (r: Self)
        ensures
            r == (Config { bandwidth: Some(bandwidth), ..self }),
    {
        let mut config: Config = self;
        config.bandwidth = Some(bandwidth);
        config
    }

    /// Sets the buffer size for data transfer.
    pub fn with_buffer_size(self, size: usize) -> (r: Self)
        ensures
            r == (Config { buffer_size: size, ..self }),
    {
        let mut config: Config = self;
        config.buffer_size = size;
        config
    }

    /// Sets the number of parallel streams.
    pub fn with_parallel(self, parallel: usize) -> (r: Self)
        ensures
            r == (Config { parallel, ..self }),
    {
        let mut config: Config = self;
        config.parallel = parallel;
        config
    }

    /// Enables or disables reverse mode, in which the server sends data and the client receives.
    pub fn with_reverse(self, reverse: bool) -> (r: Self)
        ensures
            r == (Config { reverse, ..self }),
    {
        let mut config: Config = self;
        config.reverse = reverse;
        config
    }

    /// Enables or disables JSON output format.
    pub fn with_json(self, json: bool) -> (r: Self)
        ensures
            r == (Config { json, ..self }),
    {
        let mut config: Config = self;
        config.json = json;
        config
    }

    /// Sets the interval for periodic reporting.
    pub fn with_interval(self, interval: Duration) -> (r: Self)
        ensures
            r == (Config { interval, ..self }),
    {
        let mut config: Config = self;
        config.interval = interval;
        config
    }

    /// Enables one-way send mode: client sends, server receives only.
    pub fn with_one_way_send(self) -> (r: Self)
        ensures
            r == (Config { one_way: OneWayMode::Send, ..self }),
    {
        let mut config: Config = self;
        config.one_way = OneWayMode::Send;
        config
    }

    /// Enables one-way receive mode: server sends, client receives only.
    pub fn with_one_way_receive(self) -> (r: Self)
        ensures
            r == (Config { one_way: OneWayMode::Receive, ..self }),
    {
        let mut config: Config = self;
        config.one_way = OneWayMode::Receive;
        config
    }

    /// Sets the expected packets per second, for the packet loss of one-way tests.
    pub fn with_expected_pps(self, pps: u64) -> (r: Self)
        ensures
            r == (Config { expected_pps: Some(pps), ..self }),
    {
        let mut config: Config = self;
        config.expected_pps = Some(pps);
        config
    }

    /// Sets the socket buffer size in bytes (0 = use default).
    pub fn with_socket_buf(self, size: usize) -> (r: Self)
        ensures
            r == (Config { socket_buf: size, ..self }),
    {
        let mut config: Config = self;
        config.socket_buf = size;
        config
    }

    /// Sets the number of receiver threads.
    pub fn with_recv_workers(self, workers: usize) -> (r: Self)
        ensures
            r == (Config { recv_workers: workers, ..self }),
    {
        let mut config: Config = self;
        config.recv_workers = workers;
        config
    }
}

} // verus!
