//! The control connection of a test, from the setup to the end.
//!
//! The client sends the setup and then waits for the server's messages; the server answers the
//! setup, starts the test and closes it with its results, whatever the transport protocol of the
//! test is. Reading and writing messages is done elsewhere.

use crate::client::{read_setup_ack, read_start};
use crate::error::Error;
use crate::measurements::collector::MeasurementsCollector;
use crate::measurements::one_way::ServerOneWayStats;
use crate::measurements::summary::Measurements;
use crate::measurements::udp::loss;
use crate::number::{share_of, Binary64, Percent};
use crate::protocol::Message;
use crate::server::result_message;
use vstd::prelude::*;
use vstd::string::*;

verus! {

/// Where a client stands in a test.
#[derive(Debug, Clone, Copy, PartialEq, Eq, Structural)]
pub enum Phase {
    /// The setup is sent; the server has to acknowledge it
    AwaitAck,
    /// The setup is acknowledged; the server has to start the test
    AwaitStart,
    /// Data is transferred
    Transfer,
    /// The transfer is over; the server may send results
    AwaitResult,
    /// The server may say that it is done
    AwaitDone,
    /// The test is over
    Finished,
}

/// What happens to a client.
#[derive(Debug)]
pub enum ClientEvent {
    /// A message came
    Received(Message),
    /// No message could be read
    Unreadable,
    /// The transfer of data ended
    TransferEnded,
}

/// The state of a client in a test.
#[derive(Debug, Clone, Copy, PartialEq, Eq, Structural)]
pub struct ClientSession {
    /// Where it stands
    pub phase: Phase,
}

/// Why a client gives up.
#[derive(Debug)]
pub enum SessionError {
    /// The server does not keep to the protocol, or refused the test
    Refused(Error),
    /// No message could be read where one is needed
    Unreadable,
    /// The event does not belong to where the client stands
    OutOfTurn,
}

/// Where a client stands after an event, unless it gives up. Messages about intervals do not end
/// what it waits for. Once the data is transferred, no message is needed any more: any other
/// message will do, and so will none.
pub open spec fn next_phase(session: ClientSession, event: ClientEvent) -> Option<Phase> {
    match (session.phase, event) {
        (Phase::AwaitAck, ClientEvent::Received(msg)) => if msg is SetupAck {
            Some(Phase::AwaitStart)
        } else {
            None
        },
        (Phase::AwaitStart, ClientEvent::Received(msg)) => if msg is Start {
            Some(Phase::Transfer)
        } else {
            None
        },
        (Phase::Transfer, ClientEvent::Received(msg)) => if msg is Interval {
            Some(Phase::Transfer)
        } else {
            None
        },
        (Phase::Transfer, ClientEvent::TransferEnded) => Some(Phase::AwaitResult),
        (Phase::AwaitResult, ClientEvent::Received(msg)) => if msg is Interval {
            Some(Phase::AwaitResult)
        } else {
            Some(Phase::AwaitDone)
        },
        (Phase::AwaitResult, ClientEvent::Unreadable) => Some(Phase::AwaitDone),
        (Phase::AwaitDone, ClientEvent::Received(_)) => Some(Phase::Finished),
        (Phase::AwaitDone, ClientEvent::Unreadable) => Some(Phase::Finished),
        _ => None,
    }
}

/// True when a client that gives up gives the right reason.
pub open spec fn right_reason(
    session: ClientSession,
    event: ClientEvent,
    e: SessionError,
) -> bool {
    match (session.phase, event) {
        (Phase::AwaitAck, ClientEvent::Received(msg)) => e matches SessionError::Refused(
            Error::Protocol(text),
        ) && text@ == (match msg {
            Message::Error { message } => "Server error: "@ + message@,
            _ => "Expected SetupAck message"@,
        }),
        (Phase::AwaitStart, ClientEvent::Received(_)) => e matches SessionError::Refused(
            Error::Protocol(text),
        ) && text@ == "Expected Start message"@,
        (Phase::AwaitAck, ClientEvent::Unreadable) => e is Unreadable,
        (Phase::AwaitStart, ClientEvent::Unreadable) => e is Unreadable,
        _ => e is OutOfTurn,
    }
}

impl ClientSession {
    /// The state after the setup was sent.
    pub fn new() -> (r: Self)
        ensures
            r == (ClientSession { phase: Phase::AwaitAck }),
    {
        ClientSession { phase: Phase::AwaitAck }
    }

    /// True when the client waits for a message.
    pub fn wants_message(&self) -> (r: bool)
        ensures
            r == (self.phase != Phase::Transfer && self.phase != Phase::Finished),
    {
        self.phase != Phase::Transfer && self.phase != Phase::Finished
    }

    /// Takes an event. Returns where the client stands now, or why it gives up.
    pub fn on_event(&mut self, event: ClientEvent) -> (r: Result<Phase, SessionError>)
        ensures
            match next_phase(*old(self), event) {
                Some(phase) => {
                    &&& r == Ok::<Phase, SessionError>(phase)
                    &&& *final(self) == (ClientSession { phase })
                },
                None => {
                    &&& r matches Err(e) && right_reason(*old(self), event, e)
                    &&& *final(self) == *old(self)
                },
            },
    {
        let phase: Phase = match (self.phase, event) {
            (Phase::AwaitAck, ClientEvent::Received(msg)) => match read_setup_ack(msg) {
                Ok(_) => Phase::AwaitStart,
                Err(e) => {
                    return Err(SessionError::Refused(e));
                },
            },
            (Phase::AwaitStart, ClientEvent::Received(msg)) => match read_start(msg) {
                Ok(_) => Phase::Transfer,
                Err(e) => {
                    return Err(SessionError::Refused(e));
                },
            },
            (Phase::AwaitAck, ClientEvent::Unreadable) => {
                return Err(SessionError::Unreadable);
            },
            (Phase::AwaitStart, ClientEvent::Unreadable) => {
                return Err(SessionError::Unreadable);
            },
            (Phase::Transfer, ClientEvent::Received(Message::Interval { .. })) => Phase::Transfer,
            (Phase::Transfer, ClientEvent::TransferEnded) => Phase::AwaitResult,
            (Phase::AwaitResult, ClientEvent::Received(Message::Interval { .. })) => {
                Phase::AwaitResult
            },
            (Phase::AwaitResult, ClientEvent::Received(_)) => Phase::AwaitDone,
            (Phase::AwaitResult, ClientEvent::Unreadable) => Phase::AwaitDone,
            (Phase::AwaitDone, ClientEvent::Received(_)) => Phase::Finished,
            (Phase::AwaitDone, ClientEvent::Unreadable) => Phase::Finished,
            _ => {
                return Err(SessionError::OutOfTurn);
            },
        };
        self.phase = phase;
        Ok(phase)
    }
}

/// The messages with which a server opens a test: it acknowledges the setup with its port and the
/// client's address as session, and starts the test.
pub fn opening_messages(port: u16, client_addr: String, timestamp: u64) -> (r: (Message, Message))
    ensures
        r.0 == (Message::SetupAck { port, cookie: client_addr }),
        r.1 == (Message::Start { timestamp }),
{
    (Message::setup_ack(port, client_addr), Message::start(timestamp))
}

/// The messages with which a server closes a TCP test: the results if there was any traffic, and
/// that it is done.
pub fn closing_messages(m: &Measurements, duration: Binary64, bits_per_second: Binary64) -> (r: (
    Option<Message>,
    Message,
))
    ensures
        r.0 is Some <==> m.streams@.len() > 0,
        r.0 matches Some(msg) ==> msg == (Message::Result {
            stream_id: 0,
            bytes_sent: m.streams@[0].bytes_sent,
            bytes_received: m.streams@[0].bytes_received,
            duration,
            bits_per_second,
            retransmits: None,
            packets_sent: None,
            packets_received: None,
            packet_loss: None,
            jitter_ms: None,
            out_of_order: None,
        }),
        r.1 == Message::Done,
{
    (result_message(m, duration, bits_per_second), Message::done())
}

/// The share of packets that a UDP test lost.
pub fn udp_loss_share(c: &MeasurementsCollector) -> (r: Percent)
    requires
        c.wf(),
    ensures
        r == share_of(loss(c.udp_state@).0, loss(c.udp_state@).1),
        loss(c.udp_state@).1 > 0 ==> r.part == loss(c.udp_state@).0 && r.whole
            == loss(c.udp_state@).1,
        loss(c.udp_state@).1 == 0 ==> r.part == 0,
{
    let (lost, expected) = c.calculate_udp_loss();
    Percent::of(lost, expected)
}

/// The messages with which a server closes a UDP test: the results of the whole test, and that it
/// is done. Duration, throughput and lost share come in floating-point form.
pub fn udp_closing_messages(
    c: &MeasurementsCollector,
    duration: Binary64,
    bits_per_second: Binary64,
    packet_loss: Binary64,
) -> (r: (Message, Message))
    ensures
        r.0 == (Message::Result {
            stream_id: 0,
            bytes_sent: c.bytes_sent,
            bytes_received: c.bytes_received,
            duration,
            bits_per_second,
            retransmits: None,
            packets_sent: Some(c.packets),
            packets_received: Some(c.udp_state.received_count),
            packet_loss: Some(packet_loss),
            jitter_ms: Some(c.inner.jitter_ms),
            out_of_order: Some(c.inner.out_of_order_packets),
        }),
        r.1 == Message::Done,
{
    let result: Message = Message::result_one_way(
        0,
        c.bytes_sent,
        c.bytes_received,
        duration,
        bits_per_second,
        None,
        c.packets,
        c.udp_state.received_count,
        packet_loss,
        c.inner.jitter_ms,
        c.inner.out_of_order_packets,
    );
    (result, Message::done())
}

/// The messages with which a server closes a one-way test that it received: the results, and that
/// it is done. It sent nothing and measured no jitter.
pub fn one_way_closing_messages(
    stats: &ServerOneWayStats,
    duration: Binary64,
    bits_per_second: Binary64,
    packet_loss: Binary64,
) -> (r: (Message, Message))
    ensures
        r.0 == (Message::Result {
            stream_id: 0,
            bytes_sent: 0,
            bytes_received: stats.bytes_received,
            duration,
            bits_per_second,
            retransmits: None,
            packets_sent: Some(0),
            packets_received: Some(stats.packets_received),
            packet_loss: Some(packet_loss),
            jitter_ms: Some(Binary64 { bits: 0 }),
            out_of_order: Some(stats.out_of_order),
        }),
        r.1 == Message::Done,
{
    let result: Message = Message::result_one_way(
        0,
        0,
        stats.bytes_received,
        duration,
        bits_per_second,
        None,
        0,
        stats.packets_received,
        packet_loss,
        Binary64::zero(),
        stats.out_of_order,
    );
    (result, Message::done())
}

/// Where a client stands after a run of events, unless it gave up on the way.
pub open spec fn after_events(session: ClientSession, events: Seq<ClientEvent>) -> Option<
    ClientSession,
>
    decreases events.len(),
{
    if events.len() == 0 {
        Some(session)
    } else {
        match after_events(session, events.drop_last()) {
            Some(before) => match next_phase(before, events.last()) {
                Some(phase) => Some(ClientSession { phase }),
                None => None,
            },
            None => None,
        }
    }
}

/// True for events that are messages about intervals.
pub open spec fn only_intervals(events: Seq<ClientEvent>) -> bool {
    forall|i: int|
        0 <= i < events.len() ==> ((#[trigger] events[i]) matches ClientEvent::Received(msg)
            && msg is Interval)
}

proof fn lemma_one_after_another(
    session: ClientSession,
    first: Seq<ClientEvent>,
    then: Seq<ClientEvent>,
)
    ensures
        after_events(session, first + then) == match after_events(session, first) {
            Some(mid) => after_events(mid, then),
            None => None,
        },
    decreases then.len(),
{
    if then.len() == 0 {
        assert(first + then =~= first);
    } else {
        lemma_one_after_another(session, first, then.drop_last());
        assert((first + then).drop_last() =~= first + then.drop_last());
        assert((first + then).last() == then.last());
    }
}

/// Law: messages about intervals, however many come, leave a client where it stands while data is
/// transferred and while it waits for the results.
pub proof fn law_intervals_do_not_count(session: ClientSession, events: Seq<ClientEvent>)
    requires
        session.phase == Phase::Transfer || session.phase == Phase::AwaitResult,
        only_intervals(events),
    ensures
        after_events(session, events) == Some(session),
    decreases events.len(),
{
    if events.len() > 0 {
        let rest = events.drop_last();
        assert forall|i: int| 0 <= i < rest.len() implies ((
        #[trigger] rest[i]) matches ClientEvent::Received(msg) && msg is Interval) by {
            assert(rest[i] == events[i]);
        }
        law_intervals_do_not_count(session, rest);
        assert(events.last() == events[events.len() - 1]);
    }
}

/// Law: a client comes to the end of a test with a server that opens and closes it as servers do,
/// whatever it tells of intervals on the way, and also when the connection breaks once the data is
/// transferred.
pub proof fn law_session_completes(
    ack: Message,
    start: Message,
    during: Seq<ClientEvent>,
    after: Seq<ClientEvent>,
    result: ClientEvent,
    done: ClientEvent,
)
    requires
        ack is SetupAck,
        start is Start,
        only_intervals(during),
        only_intervals(after),
        result is Unreadable || (result matches ClientEvent::Received(msg) && msg !is Interval),
        done is Received || done is Unreadable,
    ensures
        after_events(
            ClientSession { phase: Phase::AwaitAck },
            seq![ClientEvent::Received(ack), ClientEvent::Received(start)] + during + seq![
                ClientEvent::TransferEnded,
            ] + after + seq![result, done],
        ) == Some(ClientSession { phase: Phase::Finished }),
{
    reveal_with_fuel(after_events, 3);
    let opening = seq![ClientEvent::Received(ack), ClientEvent::Received(start)];
    let ending = seq![ClientEvent::TransferEnded];
    let closing = seq![result, done];
    let fresh = ClientSession { phase: Phase::AwaitAck };
    let transfer = ClientSession { phase: Phase::Transfer };
    let waiting = ClientSession { phase: Phase::AwaitResult };
    assert(opening.drop_last().drop_last().len() == 0);
    assert(opening.drop_last().last() == ClientEvent::Received(ack));
    assert(after_events(fresh, opening) == Some(transfer));
    law_intervals_do_not_count(transfer, during);
    lemma_one_after_another(fresh, opening, during);
    assert(ending.drop_last().len() == 0);
    assert(after_events(transfer, ending) == Some(waiting));
    lemma_one_after_another(fresh, opening + during, ending);
    law_intervals_do_not_count(waiting, after);
    lemma_one_after_another(fresh, opening + during + ending, after);
    assert(closing.drop_last().drop_last().len() == 0);
    assert(closing.drop_last().last() == result);
    assert(after_events(waiting, closing) == Some(ClientSession { phase: Phase::Finished }));
    lemma_one_after_another(fresh, opening + during + ending + after, closing);
}

/// The place of a phase in the order of the phases.
pub open spec fn rank(phase: Phase) -> int {
    match phase {
        Phase::AwaitAck => 0,
        Phase::AwaitStart => 1,
        Phase::Transfer => 2,
        Phase::AwaitResult => 3,
        Phase::AwaitDone => 4,
        Phase::Finished => 5,
    }
}

/// Law: data is only transferred after the server acknowledged the setup and started the test,
/// and nothing leads back: a client goes through its phases in their order, one by one, and only
/// messages about intervals leave it where it stands.
pub proof fn law_phases_in_order(session: ClientSession, event: ClientEvent)
    ensures
        next_phase(session, event) == Some(Phase::Transfer) && session.phase != Phase::Transfer
            ==> session.phase == Phase::AwaitStart && (event matches ClientEvent::Received(msg)
            && msg is Start),
        next_phase(session, event) == Some(Phase::AwaitStart) ==> session.phase == Phase::AwaitAck
            && (event matches ClientEvent::Received(msg) && msg is SetupAck),
        next_phase(session, event) matches Some(phase) ==> {
            ||| rank(phase) == rank(session.phase) + 1
            ||| phase == session.phase && (event matches ClientEvent::Received(msg) && msg is Interval)
        },
        session.phase == Phase::Finished ==> next_phase(session, event) is None,
{
}

/// Law: a transfer ends only during a transfer, and that alone ends it. That no message can be read
/// only matters before the transfer is over: then it is a reason to give up, and afterwards it stands
/// for the results and the farewell that the client can do without.
pub proof fn law_what_moves_a_session_on(session: ClientSession, event: ClientEvent)
    ensures
        event is TransferEnded ==> (next_phase(session, event) is Some <==> session.phase
            == Phase::Transfer),
        event is Unreadable ==> (next_phase(session, event) is Some <==> session.phase
            == Phase::AwaitResult || session.phase == Phase::AwaitDone),
        session.phase == Phase::Transfer && next_phase(session, event) == Some(
            Phase::AwaitResult,
        ) ==> event is TransferEnded,
        session.phase == Phase::AwaitAck ==> (next_phase(session, event) is Some <==> (event
            matches ClientEvent::Received(msg) && msg is SetupAck)),
        session.phase == Phase::AwaitStart ==> (next_phase(session, event) is Some <==> (event
            matches ClientEvent::Received(msg) && msg is Start)),
{
}

/// Law: a client that gives up before the transfer says why: it passes on what the server reported,
/// or it names the message that it waited for.
pub proof fn law_refusals_say_why(session: ClientSession, event: ClientEvent, e: SessionError)
    requires
        right_reason(session, event, e),
        next_phase(session, event) is None,
    ensures
        event is Unreadable && (session.phase == Phase::AwaitAck || session.phase
            == Phase::AwaitStart) <==> e is Unreadable,
        session.phase == Phase::AwaitAck ==> (event matches ClientEvent::Received(msg) ==> (e
            matches SessionError::Refused(Error::Protocol(text)) && (match msg {
            Message::Error { message } => {
                &&& text@.len() == 14 + message@.len()
                &&& text@.take(14) == "Server error: "@
                &&& text@.skip(14) == message@
            },
            _ => text@ == "Expected SetupAck message"@,
        }))),
        session.phase == Phase::AwaitStart ==> (event is Received ==> (e
            matches SessionError::Refused(Error::Protocol(text)) && text@
            == "Expected Start message"@)),
        event is TransferEnded ==> e is OutOfTurn,
{
    reveal_strlit("Server error: ");
    if let ClientEvent::Received(Message::Error { message }) = event {
        let whole = "Server error: "@ + message@;
        assert(whole.take(14) =~= "Server error: "@);
        assert(whole.skip(14) =~= message@);
    }
}

} // verus!
