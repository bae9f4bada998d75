//! Network throughput measurement over TCP and UDP: the logic of the tool.
//!
//! A client and a server agree on a test over a control connection, move data in one or both
//! directions, and report throughput, loss and delay. This crate holds everything that is decided
//! and computed on the way; sockets, clocks and output are handled by the program around it.
//!
//! - [`config`], [`bandwidth`]: test parameters
//! - [`protocol`], [`session`]: messages of the control connection and their order
//! - [`progress`]: the events that a client tells of, and their order
//! - [`client`], [`server`]: the decisions of either side
//! - [`transfer`], [`pacing`], [`udp_sender`], [`one_way`], [`workers`]: what happens while data is
//!   moved
//! - [`udp_packet`], [`batch_socket`], [`net`]: packets, batches of them and addresses
//! - [`measurements`], [`sequence_set`]: counters, intervals, loss and detailed results
//! - [`time`], [`number`], [`text`], [`bytes`], [`clock`], [`system`], [`error`]: what the others
//!   are built from

use vstd::prelude::*;

pub mod bandwidth;
pub mod batch_socket;
pub mod bytes;
pub mod client;
pub mod clock;
pub mod config;
pub mod error;
pub mod measurements;
pub mod net;
pub mod number;
pub mod one_way;
pub mod pacing;
pub mod progress;
pub mod protocol;
pub mod sequence_set;
pub mod server;
pub mod session;
pub mod system;
pub mod text;
pub mod time;
pub mod transfer;
pub mod udp_packet;
pub mod udp_sender;
pub mod workers;

pub use batch_socket::{UdpRecvBatch, UdpSendBatch, MAX_BATCH_SIZE};
pub use client::ProgressEvent;
pub use config::{Config, Protocol};
pub use error::Error;
pub use measurements::{Measurements, OneWayRecvStats, OneWaySendStats, ServerOneWayStats};
pub use protocol::{stream_id_for_index, DEFAULT_STREAM_ID};
pub use transfer::IntervalReport;

verus! {

/// Library version string.
pub const VERSION: &'static str = "0.6.2";

} // verus!
