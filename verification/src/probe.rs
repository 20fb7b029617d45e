use crate::error::ProtocolError;
use crate::frame::{
    framed, handshake_frame, handshake_payload, ping_frame, ping_payload, status_request,
    status_request_frame, PingTarget, PING_BODY_LEN, PING_PACKET_ID, PROTOCOL_VERSION,
    STATUS_PACKET_ID,
};
use crate::varint::{VarIntDecoder, VarIntStep};
use vstd::prelude::*;

verus! {

/// Nanoseconds in a millisecond.
pub const NANOS_PER_MILLI: u64 = 1_000_000;

/// What a probe reports: whether the server answered, and how long the ping
/// took in milliseconds. An offline result carries latency zero.
#[derive(Clone, Copy, Debug, PartialEq, Eq, Structural)]
pub struct ServerPingResult {
    pub online: bool,
    pub latency: u64,
}

/// What the probe waits for within a phase.
#[derive(Clone, Copy, Debug, PartialEq, Eq, Structural)]
pub enum Awaiting {
    /// The bytes handed out for writing have not been reported as written.
    Flush,
    /// The length prefix of the incoming frame is being read.
    FrameLength,
    /// The packet id of the incoming frame is being read.
    PacketId,
    /// The length of the status document is being read.
    BodyLength,
    /// The rest of the frame is being read.
    Body,
}

/// Where a probe stands.
#[derive(Clone, Copy, Debug, PartialEq, Eq, Structural)]
pub enum ProbeState {
    /// The connection was asked for.
    Connecting,
    /// The handshake was handed out for writing.
    HandshakeSent,
    /// The status request was handed out; its response is awaited or being read.
    StatusRequested { awaiting: Awaiting, decoder: VarIntDecoder },
    /// The status response was read to its end and the ping handed out, at the
    /// instant `started`.
    StatusReceived { started: u64 },
    /// The ping was written; the pong is being read.
    PingSent { started: u64, awaiting: Awaiting, decoder: VarIntDecoder },
    /// The pong arrived, so many milliseconds after the ping was handed out.
    Succeeded(u64),
    /// The probe was given up.
    Failed(ProtocolError),
}

/// What the driver reports back to the probe.
#[derive(Clone, Copy, Debug, PartialEq, Eq, Structural)]
pub enum Event {
    /// The connection stands.
    Connected,
    /// The bytes of the last `Send` were written.
    Written,
    /// One byte was read.
    Byte(u8),
    /// The bytes asked for by `ReadExact` were all read.
    Filled,
    /// The stream ended before the bytes asked for had arrived.
    Closed,
    /// Connecting, reading or writing failed.
    IoFailed,
    /// The timeout that bounds the current step ran out.
    TimedOut,
}

/// What the driver is to do next.
#[derive(Debug)]
pub enum Action {
    /// Open the connection to the target.
    Connect,
    /// Write these bytes.
    Send(Vec<u8>),
    /// Read one byte.
    ReadByte,
    /// Read exactly so many bytes and drop them.
    ReadExact(usize),
    /// Nothing: the probe has ended.
    Finish,
}

/// An action with its bytes as a sequence.
pub enum ActionView {
    Connect,
    Send(Seq<u8>),
    ReadByte,
    ReadExact(usize),
    Finish,
}

impl View for Action {
    type V = ActionView;

    open spec fn view(&self) -> ActionView {
        match self {
            Action::Connect => ActionView::Connect,
            Action::Send(bytes) => ActionView::Send(bytes@),
            Action::ReadByte => ActionView::ReadByte,
            Action::ReadExact(n) => ActionView::ReadExact(*n),
            Action::Finish => ActionView::Finish,
        }
    }
}

impl ProbeState {
    /// Whether the probe has ended.
    pub open spec fn is_terminal(self) -> bool {
        self is Succeeded || self is Failed
    }

    /// Whether the probe has ended.
    pub fn terminal(&self) -> (r: bool)
        ensures
            r == self.is_terminal(),
    {
        match self {
            ProbeState::Succeeded(_) => true,
            ProbeState::Failed(_) => true,
            _ => false,
        }
    }
}

/// Whole milliseconds from `started` to `now`; zero where the clock went back.
pub open spec fn latency_millis(started: u64, now: u64) -> u64 {
    if now >= started {
        ((now - started) / (NANOS_PER_MILLI as int)) as u64
    } else {
        0
    }
}

/// The state with which a step gives the probe up.
pub open spec fn failure(reason: ProtocolError) -> (ProbeState, ActionView) {
    (ProbeState::Failed(reason), ActionView::Finish)
}

/// The step on a frame's length prefix: its value is read and not looked at.
pub open spec fn on_frame_length(step: VarIntStep, resume: spec_fn(Awaiting, VarIntDecoder) -> ProbeState) -> (
    ProbeState,
    ActionView,
) {
    match step {
        VarIntStep::More(d) => (resume(Awaiting::FrameLength, d), ActionView::ReadByte),
        VarIntStep::Done(_) => (
            resume(Awaiting::PacketId, VarIntDecoder { acc: 0, count: 0 }),
            ActionView::ReadByte,
        ),
        VarIntStep::Malformed => failure(ProtocolError::MalformedVarInt),
    }
}

/// The step while the status response is read.
pub open spec fn on_status_byte(awaiting: Awaiting, decoder: VarIntDecoder, b: u8) -> (
    ProbeState,
    ActionView,
) {
    let fresh = VarIntDecoder { acc: 0, count: 0 };
    let resume = |a: Awaiting, d: VarIntDecoder| ProbeState::StatusRequested { awaiting: a, decoder: d };
    match awaiting {
        Awaiting::FrameLength => on_frame_length(decoder.spec_push(b), resume),
        Awaiting::PacketId => match decoder.spec_push(b) {
            VarIntStep::More(d) => (resume(Awaiting::PacketId, d), ActionView::ReadByte),
            VarIntStep::Done(id) => if id == STATUS_PACKET_ID {
                (resume(Awaiting::BodyLength, fresh), ActionView::ReadByte)
            } else {
                failure(ProtocolError::UnexpectedPacket)
            },
            VarIntStep::Malformed => failure(ProtocolError::MalformedVarInt),
        },
        Awaiting::BodyLength => match decoder.spec_push(b) {
            VarIntStep::More(d) => (resume(Awaiting::BodyLength, d), ActionView::ReadByte),
            VarIntStep::Done(len) => if len >= 0 {
                (resume(Awaiting::Body, fresh), ActionView::ReadExact(len as usize))
            } else {
                failure(ProtocolError::MalformedVarInt)
            },
            VarIntStep::Malformed => failure(ProtocolError::MalformedVarInt),
        },
        _ => failure(ProtocolError::Io),
    }
}

/// The step while the pong is read.
pub open spec fn on_pong_byte(started: u64, awaiting: Awaiting, decoder: VarIntDecoder, b: u8) -> (
    ProbeState,
    ActionView,
) {
    let resume = |a: Awaiting, d: VarIntDecoder| ProbeState::PingSent { started, awaiting: a, decoder: d };
    match awaiting {
        Awaiting::FrameLength => on_frame_length(decoder.spec_push(b), resume),
        Awaiting::PacketId => match decoder.spec_push(b) {
            VarIntStep::More(d) => (resume(Awaiting::PacketId, d), ActionView::ReadByte),
            VarIntStep::Done(id) => if id == PING_PACKET_ID {
                (
                    resume(Awaiting::Body, VarIntDecoder { acc: 0, count: 0 }),
                    ActionView::ReadExact(PING_BODY_LEN),
                )
            } else {
                failure(ProtocolError::UnexpectedPacket)
            },
            VarIntStep::Malformed => failure(ProtocolError::MalformedVarInt),
        },
        _ => failure(ProtocolError::Io),
    }
}

/// The transition function of the probe: from a state, what the driver reports
/// and the reading of a monotonic clock in nanoseconds, to the next state and
/// what the driver is to do.
///
/// An ended probe stays as it is. A timeout, a closed stream and an I/O failure
/// end it, whatever it was doing; so does an event that the state does not
/// wait for.
pub open spec fn spec_step(address: Seq<u8>, port: u16, state: ProbeState, event: Event, now: u64) -> (
    ProbeState,
    ActionView,
) {
    let fresh = VarIntDecoder { acc: 0, count: 0 };
    if state.is_terminal() {
        (state, ActionView::Finish)
    } else {
        match (state, event) {
            (ProbeState::Connecting, Event::TimedOut) => failure(ProtocolError::ConnectTimeout),
            (_, Event::TimedOut) => failure(ProtocolError::Timeout),
            (_, Event::Closed) => failure(ProtocolError::ConnectionClosed),
            (_, Event::IoFailed) => failure(ProtocolError::Io),
            (ProbeState::Connecting, Event::Connected) => (
                ProbeState::HandshakeSent,
                ActionView::Send(framed(handshake_payload(PROTOCOL_VERSION, address, port))),
            ),
            (ProbeState::HandshakeSent, Event::Written) => (
                ProbeState::StatusRequested { awaiting: Awaiting::Flush, decoder: fresh },
                ActionView::Send(status_request()),
            ),
            (ProbeState::StatusRequested { awaiting: Awaiting::Flush, .. }, Event::Written) => (
                ProbeState::StatusRequested { awaiting: Awaiting::FrameLength, decoder: fresh },
                ActionView::ReadByte,
            ),
            (ProbeState::StatusRequested { awaiting, decoder }, Event::Byte(b)) => on_status_byte(
                awaiting,
                decoder,
                b,
            ),
            (ProbeState::StatusRequested { awaiting: Awaiting::Body, .. }, Event::Filled) => (
                ProbeState::StatusReceived { started: now },
                ActionView::Send(framed(ping_payload(now))),
            ),
            (ProbeState::StatusReceived { started }, Event::Written) => (
                ProbeState::PingSent { started, awaiting: Awaiting::FrameLength, decoder: fresh },
                ActionView::ReadByte,
            ),
            (ProbeState::PingSent { started, awaiting, decoder }, Event::Byte(b)) => on_pong_byte(
                started,
                awaiting,
                decoder,
                b,
            ),
            (ProbeState::PingSent { started, awaiting: Awaiting::Body, .. }, Event::Filled) => (
                ProbeState::Succeeded(latency_millis(started, now)),
                ActionView::Finish,
            ),
            _ => failure(ProtocolError::Io),
        }
    }
}

/// The state and the action with which every probe begins.
pub fn start() -> (r: (ProbeState, Action))
    ensures
        r.0 == ProbeState::Connecting,
        r.1@ == ActionView::Connect,
{
    (ProbeState::Connecting, Action::Connect)
}

fn fail(reason: ProtocolError) -> (r: (ProbeState, Action))
    ensures
        (r.0, r.1@) == failure(reason),
{
    (ProbeState::Failed(reason), Action::Finish)
}

fn status_byte(awaiting: Awaiting, decoder: VarIntDecoder, b: u8) -> (r: (ProbeState, Action))
    ensures
        (r.0, r.1@) == on_status_byte(awaiting, decoder, b),
{
    let step = decoder.push(b);
    match awaiting {
        Awaiting::FrameLength => match step {
            VarIntStep::More(d) => (
                ProbeState::StatusRequested { awaiting: Awaiting::FrameLength, decoder: d },
                Action::ReadByte,
            ),
            VarIntStep::Done(_) => (
                ProbeState::StatusRequested {
                    awaiting: Awaiting::PacketId,
                    decoder: VarIntDecoder::new(),
                },
                Action::ReadByte,
            ),
            VarIntStep::Malformed => fail(ProtocolError::MalformedVarInt),
        },
        Awaiting::PacketId => match step {
            VarIntStep::More(d) => (
                ProbeState::StatusRequested { awaiting: Awaiting::PacketId, decoder: d },
                Action::ReadByte,
            ),
            VarIntStep::Done(id) => if id == STATUS_PACKET_ID {
                (
                    ProbeState::StatusRequested {
                        awaiting: Awaiting::BodyLength,
                        decoder: VarIntDecoder::new(),
                    },
                    Action::ReadByte,
                )
            } else {
                fail(ProtocolError::UnexpectedPacket)
            },
            VarIntStep::Malformed => fail(ProtocolError::MalformedVarInt),
        },
        Awaiting::BodyLength => match step {
            VarIntStep::More(d) => (
                ProbeState::StatusRequested { awaiting: Awaiting::BodyLength, decoder: d },
                Action::ReadByte,
            ),
            VarIntStep::Done(len) => if len >= 0 {
                (
                    ProbeState::StatusRequested {
                        awaiting: Awaiting::Body,
                        decoder: VarIntDecoder::new(),
                    },
                    Action::ReadExact(len as usize),
                )
            } else {
                fail(ProtocolError::MalformedVarInt)
            },
            VarIntStep::Malformed => fail(ProtocolError::MalformedVarInt),
        },
        _ => fail(ProtocolError::Io),
    }
}

fn pong_byte(started: u64, awaiting: Awaiting, decoder: VarIntDecoder, b: u8) -> (r: (
    ProbeState,
    Action,
))
    ensures
        (r.0, r.1@) == on_pong_byte(started, awaiting, decoder, b),
{
    let step = decoder.push(b);
    match awaiting {
        Awaiting::FrameLength => match step {
            VarIntStep::More(d) => (
                ProbeState::PingSent { started, awaiting: Awaiting::FrameLength, decoder: d },
                Action::ReadByte,
            ),
            VarIntStep::Done(_) => (
                ProbeState::PingSent {
                    started,
                    awaiting: Awaiting::PacketId,
                    decoder: VarIntDecoder::new(),
                },
                Action::ReadByte,
            ),
            VarIntStep::Malformed => fail(ProtocolError::MalformedVarInt),
        },
        Awaiting::PacketId => match step {
            VarIntStep::More(d) => (
                ProbeState::PingSent { started, awaiting: Awaiting::PacketId, decoder: d },
                Action::ReadByte,
            ),
            VarIntStep::Done(id) => if id == PING_PACKET_ID {
                (
                    ProbeState::PingSent {
                        started,
                        awaiting: Awaiting::Body,
                        decoder: VarIntDecoder::new(),
                    },
                    Action::ReadExact(PING_BODY_LEN),
                )
            } else {
                fail(ProtocolError::UnexpectedPacket)
            },
            VarIntStep::Malformed => fail(ProtocolError::MalformedVarInt),
        },
        _ => fail(ProtocolError::Io),
    }
}

/// Whole milliseconds from `started` to `now`, both in nanoseconds of one
/// monotonic clock; zero where `now` lies before `started`.
pub fn elapsed_millis(started: u64, now: u64) -> (ms: u64)
    ensures
        ms == latency_millis(started, now),
{
    if now >= started {
        (now - started) / NANOS_PER_MILLI
    } else {
        0
    }
}

/// Takes the probe one step on: see `spec_step`.
pub fn step(target: &PingTarget, state: ProbeState, event: Event, now: u64) -> (r: (
    ProbeState,
    Action,
))
    requires
        target.wf(),
    ensures
        (r.0, r.1@) == spec_step(target.address_bytes(), target.port, state, event, now),
{
    if state.terminal() {
        return (state, Action::Finish);
    }
    match event {
        Event::TimedOut => match state {
            ProbeState::Connecting => fail(ProtocolError::ConnectTimeout),
            _ => fail(ProtocolError::Timeout),
        },
        Event::Closed => fail(ProtocolError::ConnectionClosed),
        Event::IoFailed => fail(ProtocolError::Io),
        Event::Connected => match state {
            ProbeState::Connecting => (
                ProbeState::HandshakeSent,
                Action::Send(handshake_frame(target)),
            ),
            _ => fail(ProtocolError::Io),
        },
        Event::Written => match state {
            ProbeState::HandshakeSent => (
                ProbeState::StatusRequested {
                    awaiting: Awaiting::Flush,
                    decoder: VarIntDecoder::new(),
                },
                Action::Send(status_request_frame()),
            ),
            ProbeState::StatusRequested { awaiting: Awaiting::Flush, .. } => (
                ProbeState::StatusRequested {
                    awaiting: Awaiting::FrameLength,
                    decoder: VarIntDecoder::new(),
                },
                Action::ReadByte,
            ),
            ProbeState::StatusReceived { started } => (
                ProbeState::PingSent {
                    started,
                    awaiting: Awaiting::FrameLength,
                    decoder: VarIntDecoder::new(),
                },
                Action::ReadByte,
            ),
            _ => fail(ProtocolError::Io),
        },
        Event::Byte(b) => match state {
            ProbeState::StatusRequested { awaiting, decoder } => status_byte(awaiting, decoder, b),
            ProbeState::PingSent { started, awaiting, decoder } => pong_byte(
                started,
                awaiting,
                decoder,
                b,
            ),
            _ => fail(ProtocolError::Io),
        },
        Event::Filled => match state {
            ProbeState::StatusRequested { awaiting: Awaiting::Body, .. } => (
                ProbeState::StatusReceived { started: now },
                Action::Send(ping_frame(now)),
            ),
            ProbeState::PingSent { started, awaiting: Awaiting::Body, .. } => (
                ProbeState::Succeeded(elapsed_millis(started, now)),
                Action::Finish,
            ),
            _ => fail(ProtocolError::Io),
        },
    }
}

/// What an ended probe came to: the latency, or why there is none. `None` while
/// the probe is under way.
pub fn outcome(state: ProbeState) -> (r: Option<Result<u64, ProtocolError>>)
    ensures
        r == match state {
            ProbeState::Succeeded(ms) => Some(Ok::<u64, ProtocolError>(ms)),
            ProbeState::Failed(reason) => Some(Err::<u64, ProtocolError>(reason)),
            _ => None,
        },
{
    match state {
        ProbeState::Succeeded(ms) => Some(Ok(ms)),
        ProbeState::Failed(reason) => Some(Err(reason)),
        _ => None,
    }
}

/// What the caller of a probe is told: online with the latency where the probe
/// succeeded, offline with latency zero in every other state.
pub open spec fn spec_ping_result(state: ProbeState) -> ServerPingResult {
    match state {
        ProbeState::Succeeded(ms) => ServerPingResult { online: true, latency: ms },
        _ => ServerPingResult { online: false, latency: 0 },
    }
}

/// Collapses the state of a probe into what its caller is told.
pub fn ping_result(state: ProbeState) -> (r: ServerPingResult)
    ensures
        r == spec_ping_result(state),
        !r.online ==> r.latency == 0,
        r.online <==> state is Succeeded,
{
    match state {
        ProbeState::Succeeded(ms) => ServerPingResult { online: true, latency: ms },
        _ => ServerPingResult { online: false, latency: 0 },
    }
}

} // verus!
