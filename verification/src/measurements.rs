//! Measurements of a test: byte and packet counters, intervals, loss and detailed results.

pub mod collector;
pub mod detailed;
pub mod intervals;
pub mod one_way;
pub mod option_u64_max;
pub mod streams;
pub mod summary;
pub mod tcp_figures;
pub mod tcp_stats;
pub mod udp;

pub use crate::system::{get_system_info, SystemInfo};
pub use collector::MeasurementsCollector;
pub use detailed::{
    ConnectingTo, ConnectionInfo, CpuUtilization, DetailedIntervalStats, DetailedTestResults,
    EndStreamInfo, IntervalData, StreamSummary, TestConfig, TestEndInfo, TestStartInfo,
    TimestampInfo, UdpEndStreamInfo, UdpIntervalStats, UdpStreamSummary, UdpSum,
};
pub use intervals::{CircularIntervalBuffer, IntervalStats, MAX_INTERVALS};
pub use one_way::{OneWayRecvStats, OneWaySendStats, ServerOneWayStats};
pub use streams::{PerStreamMeasurements, StreamStats};
pub use summary::Measurements;
pub use tcp_figures::TcpFigures;
pub use tcp_stats::{TcpInfo, TcpStats, TcpStatsDto};
pub use udp::{UdpPacketState, UdpStats};
