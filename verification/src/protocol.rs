//! The control protocol between client and server.

use crate::bytes::{be32, be32_at, u32_from_be, u32_to_be};
use crate::number::Binary64;
use crate::time::{whole_secs, Duration};
use vstd::prelude::*;

verus! {

/// Current protocol version for client-server communication.
pub const PROTOCOL_VERSION: u32 = 1;

/// Default stream ID, as iperf3 has it.
///
/// Stream ID 5 is the default for single stream tests; parallel streams count up from it.
pub const DEFAULT_STREAM_ID: usize = 5;

/// The stream ID of the stream with a given index.
pub open spec fn stream_id_of(index: int) -> int {
    DEFAULT_STREAM_ID + index * 2
}

/// Generates a stream ID for parallel streams from the zero-based index of the stream.
pub fn stream_id_for_index(index: usize) -> (r: usize)
    requires
        stream_id_of(index as int) <= usize::MAX,
    ensures
        r == stream_id_of(index as int),
{
    DEFAULT_STREAM_ID + (index * 2)
}

/// Law: stream IDs are odd, start at the default one, and no two streams share one.
pub proof fn law_stream_ids(a: nat, b: nat)
    ensures
        stream_id_of(0) == DEFAULT_STREAM_ID,
        stream_id_of(a as int) % 2 == 1,
        a != b ==> stream_id_of(a as int) != stream_id_of(b as int),
        a < b ==> stream_id_of(a as int) < stream_id_of(b as int),
        stream_id_of(0) == 5,
        stream_id_of(a as int + 1) - stream_id_of(a as int) == 2,
{
}

/// Messages of the control protocol.
///
/// # Protocol flow
///
/// 1. Client sends `Setup` with test parameters
/// 2. Server responds with `SetupAck`
/// 3. Server sends `Start` to begin test
/// 4. `Interval` messages may tell of the running test; a client goes on waiting after them
/// 5. `Result` message contains final statistics
/// 6. `Done` signals test completion
/// 7. `Error` can be sent at any point to indicate failure
#[allow(inconsistent_fields)]
#[derive(Debug)]
pub enum Message {
    /// Initial handshake from client with test parameters
    Setup {
        /// Protocol version
        version: u32,
        /// Name of the transport protocol
        protocol: String,
        /// Duration in whole seconds
        duration: u64,
        /// Target bandwidth in bits per second
        bandwidth: Option<u64>,
        /// Buffer size in bytes
        buffer_size: usize,
        /// Number of parallel streams
        parallel: usize,
        /// True when the server sends
        reverse: bool,
        /// One-way mode: "send" / "receive" / none
        one_way: Option<String>,
        /// Expected packets per second for one-way packet loss calculation
        expected_pps: Option<u64>,
    },
    /// Server acknowledgment of setup
    SetupAck {
        /// Port of the test
        port: u16,
        /// Session identifier
        cookie: String,
    },
    /// Test start signal
    Start {
        /// Seconds since the UNIX epoch
        timestamp: u64,
    },
    /// Interval results
    Interval {
        /// Stream identifier
        stream_id: usize,
        /// Start in seconds
        start: Binary64,
        /// End in seconds
        end: Binary64,
        /// Bytes transferred
        bytes: u64,
        /// Throughput in bits per second
        bits_per_second: Binary64,
    },
    /// Final results
    Result {
        /// Stream identifier
        stream_id: usize,
        /// Bytes sent
        bytes_sent: u64,
        /// Bytes received
        bytes_received: u64,
        /// Duration in seconds
        duration: Binary64,
        /// Throughput in bits per second
        bits_per_second: Binary64,
        /// TCP retransmits, if they are told
        retransmits: Option<u64>,
        /// Packets sent (one-way mode)
        packets_sent: Option<u64>,
        /// Packets received (one-way mode)
        packets_received: Option<u64>,
        /// Packet loss percentage (one-way mode)
        packet_loss: Option<Binary64>,
        /// Jitter in milliseconds (one-way mode)
        jitter_ms: Option<Binary64>,
        /// Out-of-order packets count (one-way mode)
        out_of_order: Option<u64>,
    },
    /// Test completion signal
    Done,
    /// Error message
    Error {
        /// What went wrong
        message: String,
    },
}

impl Message {
    /// Creates a Setup message for test initialization.
    pub fn setup(
        protocol: String,
        duration: Duration,
        bandwidth: Option<u64>,
        buffer_size: usize,
        parallel: usize,
        reverse: bool,
    ) -> (r: Self)
        ensures
            r == (Message::Setup {
                version: PROTOCOL_VERSION,
                protocol,
                duration: whole_secs(duration),
                bandwidth,
                buffer_size,
                parallel,
                reverse,
                one_way: None,
                expected_pps: None,
            }),
    {
        Message::Setup {
            version: PROTOCOL_VERSION,
            protocol,
            duration: duration.as_secs(),
            bandwidth,
            buffer_size,
            parallel,
            reverse,
            one_way: None,
            expected_pps: None,
        }
    }

    /// Creates a Setup message with one-way mode support.
    pub fn setup_with_one_way(
        protocol: String,
        duration: Duration,
        bandwidth: Option<u64>,
        buffer_size: usize,
        parallel: usize,
        reverse: bool,
        one_way: Option<String>,
        expected_pps: Option<u64>,
    ) -> (r: Self)
        ensures
            r == (Message::Setup {
                version: PROTOCOL_VERSION,
                protocol,
                duration: whole_secs(duration),
                bandwidth,
                buffer_size,
                parallel,
                reverse,
                one_way,
                expected_pps,
            }),
    {
        Message::Setup {
            version: PROTOCOL_VERSION,
            protocol,
            duration: duration.as_secs(),
            bandwidth,
            buffer_size,
            parallel,
            reverse,
            one_way,
            expected_pps,
        }
    }

    /// Creates a SetupAck message.
    pub fn setup_ack(port: u16, cookie: String) -> (r: Self)
        ensures
            r == (Message::SetupAck { port, cookie }),
    {
        Message::SetupAck { port, cookie }
    }

    /// Creates a Start message to begin the test.
    pub fn start(timestamp: u64) -> (r: Self)
        ensures
            r == (Message::Start { timestamp }),
    {
        Message::Start { timestamp }
    }

    /// Creates an Interval message with periodic statistics.
    pub fn interval(
        stream_id: usize,
        start: Binary64,
        end: Binary64,
        bytes: u64,
        bits_per_second: Binary64,
    ) -> (r: Self)
        ensures
            r == (Message::Interval { stream_id, start, end, bytes, bits_per_second }),
    {
        Message::Interval { stream_id, start, end, bytes, bits_per_second }
    }

    /// Creates a Result message with final test statistics.
    pub fn result(
        stream_id: usize,
        bytes_sent: u64,
        bytes_received: u64,
        duration: Binary64,
        bits_per_second: Binary64,
        retransmits: Option<u64>,
    ) -> (r: Self)
        ensures
            r == (Message::Result {
                stream_id,
                bytes_sent,
                bytes_received,
                duration,
                bits_per_second,
                retransmits,
                packets_sent: None,
                packets_received: None,
                packet_loss: None,
                jitter_ms: None,
                out_of_order: None,
            }),
    {
        Message::Result {
            stream_id,
            bytes_sent,
            bytes_received,
            duration,
            bits_per_second,
            retransmits,
            packets_sent: None,
            packets_received: None,
            packet_loss: None,
            jitter_ms: None,
            out_of_order: None,
        }
    }

    /// Creates a Result message with one-way statistics.
    pub fn result_one_way(
        stream_id: usize,
        bytes_sent: u64,
        bytes_received: u64,
        duration: Binary64,
        bits_per_second: Binary64,
        retransmits: Option<u64>,
        packets_sent: u64,
        packets_received: u64,
        packet_loss: Binary64,
        jitter_ms: Binary64,
        out_of_order: u64,
    ) -> (r: Self)
        ensures
            r == (Message::Result {
                stream_id,
                bytes_sent,
                bytes_received,
                duration,
                bits_per_second,
                retransmits,
                packets_sent: Some(packets_sent),
                packets_received: Some(packets_received),
                packet_loss: Some(packet_loss),
                jitter_ms: Some(jitter_ms),
                out_of_order: Some(out_of_order),
            }),
    {
        Message::Result {
            stream_id,
            bytes_sent,
            bytes_received,
            duration,
            bits_per_second,
            retransmits,
            packets_sent: Some(packets_sent),
            packets_received: Some(packets_received),
            packet_loss: Some(packet_loss),
            jitter_ms: Some(jitter_ms),
            out_of_order: Some(out_of_order),
        }
    }

    /// Creates a Done message to signal test completion.
    pub fn done() -> (r: Self)
        ensures
            r == Message::Done,
    {
        Message::Done
    }

    /// Creates an Error message.
    pub fn error(message: String) -> (r: Self)
        ensures
            r == (Message::Error { message }),
    {
        Message::Error { message }
    }
}

/// A framed message: the length of the JSON text in four bytes, most significant first, and the
/// text itself. The length of a text of four gigabytes or more wraps around.
pub open spec fn framed(json: Seq<u8>) -> Seq<u8> {
    be32((json.len() % 0x1_0000_0000) as u32) + json
}

/// Frames the JSON text of a message for the wire.
pub fn serialize_message(json: &[u8]) -> (r: Vec<u8>)
    ensures
        r@ == framed(json@),
{
    let len: u32 = (json.len() as u64 % 0x1_0000_0000) as u32;
    let prefix: [u8; 4] = u32_to_be(len);
    let mut result: Vec<u8> = Vec::new();
    result.extend_from_slice(&prefix);
    result.extend_from_slice(json);
    assert(result@ =~= framed(json@));
    result
}

/// What the bytes read so far hold.
#[derive(Debug, PartialEq, Eq)]
pub enum Frame<'a> {
    /// The next message is not complete: so many bytes more have to be read before it can be, or
    /// before its length is known
    Incomplete {
        /// Bytes that are missing
        missing: usize,
    },
    /// A whole message
    Complete {
        /// The JSON text of the message
        json: &'a [u8],
        /// What follows the message
        rest: &'a [u8],
    },
}

/// The length that the four bytes at the start of a frame announce.
pub open spec fn announced(bytes: Seq<u8>) -> nat {
    be32_at(bytes, 0) as nat
}

/// Takes the first message off the bytes read so far: the JSON text of the message, or how many
/// bytes have to be read first.
pub fn deserialize_message<'a>(bytes: &'a [u8]) -> (r: Frame<'a>)
    ensures
        match r {
            Frame::Incomplete { missing } => if bytes@.len() < 4 {
                missing == 4 - bytes@.len()
            } else {
                &&& bytes@.len() < 4 + announced(bytes@)
                &&& missing == 4 + announced(bytes@) - bytes@.len()
            },
            Frame::Complete { json, rest } => {
                &&& bytes@.len() >= 4 + announced(bytes@)
                &&& bytes@.len() >= 4
                &&& json@ == bytes@.subrange(4, 4 + announced(bytes@) as int)
                &&& rest@ == bytes@.skip(4 + announced(bytes@) as int)
            },
        },
{
    let have: usize = bytes.len();
    if have < 4 {
        return Frame::Incomplete { missing: 4 - have };
    }
    let len: usize = u32_from_be(bytes, 0) as usize;
    let (_, body) = bytes.split_at(4);
    if body.len() < len {
        return Frame::Incomplete { missing: len - body.len() };
    }
    let (json, rest) = body.split_at(len);
    assert(json@ =~= bytes@.subrange(4, 4 + len as int));
    assert(rest@ =~= bytes@.skip(4 + len as int));
    Frame::Complete { json, rest }
}

/// Law: a framed text of less than four gigabytes announces its own length, and what is taken off
/// its frame is the text itself, whatever follows the frame. The length prefix is right.
pub proof fn law_frame_round_trip(json: Seq<u8>, rest: Seq<u8>)
    requires
        json.len() < 0x1_0000_0000,
    ensures
        framed(json).len() == 4 + json.len(),
        announced(framed(json) + rest) == json.len(),
        (framed(json) + rest).subrange(4, 4 + json.len() as int) == json,
        (framed(json) + rest).skip(4 + json.len() as int) == rest,
{
    let s = framed(json) + rest;
    let len = json.len() as u32;
    assert(s.subrange(0, 4) =~= be32(len));
    crate::bytes::lemma_be32_round_trip(len, s, 0);
    assert(s.subrange(4, 4 + json.len() as int) =~= json);
    assert(s.skip(4 + json.len() as int) =~= rest);
}

/// Law: of the start of a frame never more is asked for than the frame still holds, so a reader
/// that reads what is asked for stops exactly at the end of the frame.
pub proof fn law_frame_prefix(json: Seq<u8>, have: int)
    requires
        json.len() < 0x1_0000_0000,
        0 <= have < framed(json).len(),
    ensures
        have < 4 ==> 4 - have <= framed(json).len() - have,
        have >= 4 ==> announced(framed(json).take(have)) == json.len(),
        have >= 4 ==> 4 + announced(framed(json).take(have)) - have == framed(json).len() - have,
{
    let s = framed(json).take(have);
    if have >= 4 {
        assert(s.subrange(0, 4) =~= be32(json.len() as u32));
        crate::bytes::lemma_be32_round_trip(json.len() as u32, s, 0);
    }
}

} // verus!
