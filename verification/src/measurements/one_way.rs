//! Statistics of one-way tests.

use crate::number::{Binary64, Percent};
use crate::time::Duration;
use vstd::prelude::*;

verus! {

/// Statistics for one-way send operation (client side).
#[derive(Debug, Clone, Copy, PartialEq, Eq, Structural)]
pub struct OneWaySendStats {
    /// Total bytes sent
    pub bytes_sent: u64,
    /// Total packets sent
    pub packets_sent: u64,
    /// Test duration
    pub duration: Duration,
}

impl Default for OneWaySendStats {
    fn default() -> (r: Self)
        ensures
            r == (OneWaySendStats {
                bytes_sent: 0,
                packets_sent: 0,
                duration: Duration { nanos: 0 },
            }),
    {
        OneWaySendStats { bytes_sent: 0, packets_sent: 0, duration: Duration::zero() }
    }
}

/// Statistics for one-way receive operation (client side).
#[derive(Debug, Clone, Copy, PartialEq, Eq)]
pub struct OneWayRecvStats {
    /// Total bytes received
    pub bytes_received: u64,
    /// Total packets received
    pub packets_received: u64,
    /// Out-of-order packets count
    pub out_of_order: u64,
    /// Packet loss, where an expected rate is known
    pub packet_loss: Option<Percent>,
    /// Average jitter in milliseconds
    pub jitter_ms: Binary64,
    /// Test duration
    pub duration: Duration,
}

impl Default for OneWayRecvStats {
    fn default() -> (r: Self)
        ensures
            r == (OneWayRecvStats {
                bytes_received: 0,
                packets_received: 0,
                out_of_order: 0,
                packet_loss: None,
                jitter_ms: Binary64 { bits: 0 },
                duration: Duration { nanos: 0 },
            }),
    {
        OneWayRecvStats {
            bytes_received: 0,
            packets_received: 0,
            out_of_order: 0,
            packet_loss: None,
            jitter_ms: Binary64::zero(),
            duration: Duration::zero(),
        }
    }
}

/// Statistics for one-way receive operation on server side.
#[derive(Debug, Clone, Copy, PartialEq, Eq)]
pub struct ServerOneWayStats {
    /// Total bytes received
    pub bytes_received: u64,
    /// Total packets received
    pub packets_received: u64,
    /// Out-of-order packets count
    pub out_of_order: u64,
    /// Cumulative packets lost (detected via sequence number gaps)
    pub packets_lost: u64,
    /// Packet loss, where any packets are known of
    pub packet_loss: Option<Percent>,
    /// Test duration
    pub duration: Duration,
}

impl Default for ServerOneWayStats {
    fn default() -> (r: Self)
        ensures
            r == (ServerOneWayStats {
                bytes_received: 0,
                packets_received: 0,
                out_of_order: 0,
                packets_lost: 0,
                packet_loss: None,
                duration: Duration { nanos: 0 },
            }),
    {
        ServerOneWayStats {
            bytes_received: 0,
            packets_received: 0,
            out_of_order: 0,
            packets_lost: 0,
            packet_loss: None,
            duration: Duration::zero(),
        }
    }
}

} // verus!
