use crate::error::ProtocolError;
use crate::frame::{
    handshake_payload, is_frame, lemma_framed_is_frame, lemma_handshake_fields,
    lemma_status_request_is_frame, ping_payload, MAX_ADDRESS_LEN, PING_PACKET_ID,
    PROTOCOL_VERSION, STATUS_PACKET_ID,
};
use crate::probe::{
    latency_millis, spec_ping_result, spec_step, ActionView, Awaiting, Event, ProbeState,
    ServerPingResult,
};
use crate::varint::{
    decoded, lemma_decode_encode, lemma_push_decodes, lemma_encoding_len, lemma_terminator,
    varint_encoding, VarIntDecoder, VarIntStep,
};
use vstd::prelude::*;

verus! {

/// The state of a probe after the driver has reported the bytes of `bytes` one
/// by one, all at the clock reading `now`.
pub open spec fn spec_feed(address: Seq<u8>, port: u16, state: ProbeState, bytes: Seq<u8>, now: u64) -> ProbeState
    decreases bytes.len(),
{
    if bytes.len() == 0 {
        state
    } else {
        spec_feed(
            address,
            port,
            spec_step(address, port, state, Event::Byte(bytes[0]), now).0,
            bytes.skip(1),
            now,
        )
    }
}

/// A decoder that has read nothing.
pub open spec fn fresh() -> VarIntDecoder {
    VarIntDecoder { acc: 0, count: 0 }
}

/// The state in which the status response is read, at a given field.
pub open spec fn reading_status(awaiting: Awaiting) -> ProbeState {
    ProbeState::StatusRequested { awaiting, decoder: fresh() }
}

/// The state in which the pong is read, at a given field.
pub open spec fn reading_pong(started: u64, awaiting: Awaiting) -> ProbeState {
    ProbeState::PingSent { started, awaiting, decoder: fresh() }
}

/// Feeding one sequence after another is feeding the two as one.
pub proof fn lemma_feed_concat(address: Seq<u8>, port: u16, state: ProbeState, first: Seq<u8>, second: Seq<u8>, now: u64)
    ensures
        spec_feed(address, port, state, first + second, now) == spec_feed(
            address,
            port,
            spec_feed(address, port, state, first, now),
            second,
            now,
        ),
    decreases first.len(),
{
    if first.len() == 0 {
        assert(first + second =~= second);
    } else {
        let next = spec_step(address, port, state, Event::Byte(first[0]), now).0;
        assert((first + second).skip(1) =~= first.skip(1) + second);
        assert((first + second)[0] == first[0]);
        lemma_feed_concat(address, port, next, first.skip(1), second, now);
    }
}

/// Whether the states `at(d)` read one integer: on a byte that asks for
/// another they go on with the decoder that took it, on five such bytes they
/// fail, and on the last byte they go to `then(v)` for the value `v` read.
pub open spec fn reads_field(
    address: Seq<u8>,
    port: u16,
    now: u64,
    at: spec_fn(VarIntDecoder) -> ProbeState,
    then: spec_fn(i32) -> ProbeState,
) -> bool {
    forall|d: VarIntDecoder, b: u8| #[trigger]
        spec_step(address, port, at(d), Event::Byte(b), now).0 == match d.spec_push(b) {
            VarIntStep::More(next) => at(next),
            VarIntStep::Done(v) => then(v),
            VarIntStep::Malformed => ProbeState::Failed(ProtocolError::MalformedVarInt),
        }
}

proof fn lemma_feed_rest_of_field(
    address: Seq<u8>,
    port: u16,
    now: u64,
    at: spec_fn(VarIntDecoder) -> ProbeState,
    then: spec_fn(i32) -> ProbeState,
    v: i32,
    d: VarIntDecoder,
    n: nat,
)
    requires
        reads_field(address, port, now, at, then),
        d.has_read(varint_encoding(v), n),
        n < varint_encoding(v).len(),
    ensures
        spec_feed(address, port, at(d), varint_encoding(v).skip(n as int), now) == then(v),
    decreases varint_encoding(v).len() - n,
{
    let s = varint_encoding(v);
    let rest = s.skip(n as int);
    lemma_encoding_len(v);
    lemma_decode_encode(v, Seq::empty());
    assert(s + Seq::<u8>::empty() =~= s);
    assert(decoded(s) == Ok::<(i32, usize), ProtocolError>((v, s.len() as usize)));
    lemma_push_decodes(d, s, n);
    let b = s[n as int];
    assert(rest[0] == b);
    assert(rest.skip(1) =~= s.skip((n + 1) as int));
    let after = spec_step(address, port, at(d), Event::Byte(b), now).0;
    assert(rest.len() > 0);
    assert(spec_feed(address, port, at(d), rest, now) == spec_feed(
        address,
        port,
        after,
        rest.skip(1),
        now,
    ));
    match d.spec_push(b) {
        VarIntStep::More(next) => {
            assert(after == at(next));
            if n + 1 == s.len() {
                lemma_terminator(s, n + 1);
                assert(false);
            }
            lemma_feed_rest_of_field(address, port, now, at, then, v, next, n + 1);
        },
        VarIntStep::Done(x) => {
            assert(x == v && n + 1 == s.len());
            assert(after == then(v));
            assert(rest.skip(1).len() == 0);
            assert(spec_feed(address, port, after, rest.skip(1), now) == after);
        },
        VarIntStep::Malformed => {
            assert(false);
        },
    }
}

/// States that read one integer come, on the bytes of `v`, to the state that
/// follows the value `v`.
pub proof fn lemma_feed_field(
    address: Seq<u8>,
    port: u16,
    now: u64,
    at: spec_fn(VarIntDecoder) -> ProbeState,
    then: spec_fn(i32) -> ProbeState,
    v: i32,
)
    requires
        reads_field(address, port, now, at, then),
    ensures
        spec_feed(address, port, at(fresh()), varint_encoding(v), now) == then(v),
{
    lemma_encoding_len(v);
    assert(varint_encoding(v).skip(0) =~= varint_encoding(v));
    lemma_feed_rest_of_field(address, port, now, at, then, v, fresh(), 0);
}

/// What follows the packet id of a status response.
pub open spec fn after_status_id(id: i32) -> ProbeState {
    if id == STATUS_PACKET_ID {
        reading_status(Awaiting::BodyLength)
    } else {
        ProbeState::Failed(ProtocolError::UnexpectedPacket)
    }
}

/// What follows the length of the status document.
pub open spec fn after_status_length(len: i32) -> ProbeState {
    if len >= 0 {
        reading_status(Awaiting::Body)
    } else {
        ProbeState::Failed(ProtocolError::MalformedVarInt)
    }
}

/// What follows the packet id of a pong.
pub open spec fn after_pong_id(started: u64, id: i32) -> ProbeState {
    if id == PING_PACKET_ID {
        reading_pong(started, Awaiting::Body)
    } else {
        ProbeState::Failed(ProtocolError::UnexpectedPacket)
    }
}

/// A status response is read past its header whatever length its frame
/// declares, as long as its packet id is zero: on the frame length, the packet
/// id and the length of the document, the probe comes to wait for the
/// document. With any other packet id it fails on the id, and with a negative
/// document length on the length.
pub proof fn lemma_status_header(address: Seq<u8>, port: u16, now: u64, frame_len: i32, id: i32, body_len: i32)
    ensures
        spec_feed(
            address,
            port,
            reading_status(Awaiting::FrameLength),
            varint_encoding(frame_len) + varint_encoding(id),
            now,
        ) == after_status_id(id),
        id == STATUS_PACKET_ID ==> spec_feed(
            address,
            port,
            reading_status(Awaiting::FrameLength),
            varint_encoding(frame_len) + varint_encoding(id) + varint_encoding(body_len),
            now,
        ) == after_status_length(body_len),
{
    let at_len = |d: VarIntDecoder|
        ProbeState::StatusRequested { awaiting: Awaiting::FrameLength, decoder: d };
    let at_id = |d: VarIntDecoder|
        ProbeState::StatusRequested { awaiting: Awaiting::PacketId, decoder: d };
    let at_body_len = |d: VarIntDecoder|
        ProbeState::StatusRequested { awaiting: Awaiting::BodyLength, decoder: d };
    let then_id = |v: i32| reading_status(Awaiting::PacketId);
    let then_id_read = |v: i32| after_status_id(v);
    let then_len_read = |v: i32| after_status_length(v);
    let start = reading_status(Awaiting::FrameLength);
    assert(reads_field(address, port, now, at_len, then_id));
    assert(reads_field(address, port, now, at_id, then_id_read));
    assert(reads_field(address, port, now, at_body_len, then_len_read));
    lemma_feed_field(address, port, now, at_len, then_id, frame_len);
    lemma_feed_field(address, port, now, at_id, then_id_read, id);
    lemma_feed_field(address, port, now, at_body_len, then_len_read, body_len);
    lemma_feed_concat(address, port, start, varint_encoding(frame_len), varint_encoding(id), now);
    lemma_feed_concat(
        address,
        port,
        start,
        varint_encoding(frame_len) + varint_encoding(id),
        varint_encoding(body_len),
        now,
    );
}

/// A pong is read past its header whatever length its frame declares, as long
/// as its packet id is one; with any other id the probe fails on the id.
pub proof fn lemma_pong_header(address: Seq<u8>, port: u16, now: u64, started: u64, frame_len: i32, id: i32)
    ensures
        spec_feed(
            address,
            port,
            reading_pong(started, Awaiting::FrameLength),
            varint_encoding(frame_len) + varint_encoding(id),
            now,
        ) == after_pong_id(started, id),
{
    let at_len = |d: VarIntDecoder|
        ProbeState::PingSent { started, awaiting: Awaiting::FrameLength, decoder: d };
    let at_id = |d: VarIntDecoder|
        ProbeState::PingSent { started, awaiting: Awaiting::PacketId, decoder: d };
    let then_id = |v: i32| reading_pong(started, Awaiting::PacketId);
    let then_id_read = |v: i32| after_pong_id(started, v);
    assert(reads_field(address, port, now, at_len, then_id));
    assert(reads_field(address, port, now, at_id, then_id_read));
    lemma_feed_field(address, port, now, at_len, then_id, frame_len);
    lemma_feed_field(address, port, now, at_id, then_id_read, id);
    lemma_feed_concat(
        address,
        port,
        reading_pong(started, Awaiting::FrameLength),
        varint_encoding(frame_len),
        varint_encoding(id),
        now,
    );
}

/// A probe that has ended stays as it is, whatever is reported to it.
pub proof fn lemma_ended_probe_stays(address: Seq<u8>, port: u16, state: ProbeState, event: Event, now: u64)
    requires
        state.is_terminal(),
    ensures
        spec_step(address, port, state, event, now) == (state, ActionView::Finish),
{
}

/// A timeout, a closed stream and an I/O failure end a probe that is under
/// way, at whatever step: it fails, is told to do nothing more, and its caller
/// hears offline with latency zero.
pub proof fn lemma_interruption_fails(address: Seq<u8>, port: u16, state: ProbeState, event: Event, now: u64)
    requires
        !state.is_terminal(),
        event is TimedOut || event is Closed || event is IoFailed,
    ensures
        spec_step(address, port, state, event, now).0 == ProbeState::Failed(
            match event {
                Event::TimedOut => if state is Connecting {
                    ProtocolError::ConnectTimeout
                } else {
                    ProtocolError::Timeout
                },
                Event::Closed => ProtocolError::ConnectionClosed,
                _ => ProtocolError::Io,
            },
        ),
        spec_step(address, port, state, event, now).1 == ActionView::Finish,
        !spec_ping_result(spec_step(address, port, state, event, now).0).online,
        spec_ping_result(spec_step(address, port, state, event, now).0).latency == 0,
{
}

/// A probe is told to do nothing more exactly when the step has ended it, and
/// a probe under way succeeds only when the payload of the pong was read to
/// its end.
pub proof fn lemma_step_ends_with_finish(address: Seq<u8>, port: u16, state: ProbeState, event: Event, now: u64)
    ensures
        spec_step(address, port, state, event, now).1 == ActionView::Finish <==> spec_step(
            address,
            port,
            state,
            event,
            now,
        ).0.is_terminal(),
        !state.is_terminal() && spec_step(address, port, state, event, now).0 is Succeeded ==> (state matches ProbeState::PingSent {
            awaiting: Awaiting::Body,
            ..
        }) && event is Filled,
{
}

/// The state of a probe once the connection stands and the handshake and the
/// status request were written.
pub open spec fn after_requests(address: Seq<u8>, port: u16, now: u64) -> ProbeState {
    let connected = spec_step(address, port, ProbeState::Connecting, Event::Connected, now).0;
    let handshaken = spec_step(address, port, connected, Event::Written, now).0;
    spec_step(address, port, handshaken, Event::Written, now).0
}

/// The state of a probe against a server that answers the status request with
/// a frame of packet id `status_id` around a document of `body_len` bytes, and
/// the ping, handed out at `pinged`, with a frame of packet id `pong_id` whose
/// last byte is read at `ponged`. The lengths that the two frames declare are
/// `status_frame_len` and `pong_frame_len`.
pub open spec fn exchange(
    address: Seq<u8>,
    port: u16,
    status_frame_len: i32,
    status_id: i32,
    body_len: i32,
    pinged: u64,
    pong_frame_len: i32,
    pong_id: i32,
    ponged: u64,
) -> ProbeState {
    let waiting = after_requests(address, port, 0);
    let header = varint_encoding(status_frame_len) + varint_encoding(status_id) + varint_encoding(
        body_len,
    );
    let at_body = spec_feed(address, port, waiting, header, 0);
    let received = spec_step(address, port, at_body, Event::Filled, pinged).0;
    let ping_sent = spec_step(address, port, received, Event::Written, pinged).0;
    let pong_header = varint_encoding(pong_frame_len) + varint_encoding(pong_id);
    let at_pong = spec_feed(address, port, ping_sent, pong_header, ponged);
    spec_step(address, port, at_pong, Event::Filled, ponged).0
}

/// Against a server that answers as the protocol asks, a probe succeeds, and
/// its latency is the time from handing out the ping to the last byte of the
/// pong, in whole milliseconds.
pub proof fn lemma_faithful_server_is_online(
    address: Seq<u8>,
    port: u16,
    status_frame_len: i32,
    body_len: i32,
    pinged: u64,
    pong_frame_len: i32,
    ponged: u64,
)
    requires
        body_len >= 0,
    ensures
        exchange(
            address,
            port,
            status_frame_len,
            STATUS_PACKET_ID,
            body_len,
            pinged,
            pong_frame_len,
            PING_PACKET_ID,
            ponged,
        ) == ProbeState::Succeeded(latency_millis(pinged, ponged)),
        spec_ping_result(
            exchange(
                address,
                port,
                status_frame_len,
                STATUS_PACKET_ID,
                body_len,
                pinged,
                pong_frame_len,
                PING_PACKET_ID,
                ponged,
            ),
        ) == (ServerPingResult { online: true, latency: latency_millis(pinged, ponged) }),
{
    assert(after_requests(address, port, 0) == reading_status(Awaiting::FrameLength));
    lemma_status_header(address, port, 0, status_frame_len, STATUS_PACKET_ID, body_len);
    lemma_pong_header(address, port, ponged, pinged, pong_frame_len, PING_PACKET_ID);
}

/// A server that answers the status request with any packet id but zero makes
/// the probe fail on that id, and whatever is reported afterwards its caller
/// hears offline with latency zero.
pub proof fn lemma_wrong_status_id_is_offline(
    address: Seq<u8>,
    port: u16,
    status_frame_len: i32,
    status_id: i32,
    body_len: i32,
    pinged: u64,
    pong_frame_len: i32,
    pong_id: i32,
    ponged: u64,
)
    requires
        status_id != STATUS_PACKET_ID,
    ensures
        spec_feed(
            address,
            port,
            after_requests(address, port, 0),
            varint_encoding(status_frame_len) + varint_encoding(status_id),
            0,
        ) == ProbeState::Failed(ProtocolError::UnexpectedPacket),
        exchange(
            address,
            port,
            status_frame_len,
            status_id,
            body_len,
            pinged,
            pong_frame_len,
            pong_id,
            ponged,
        ) == ProbeState::Failed(ProtocolError::UnexpectedPacket),
        spec_ping_result(
            exchange(
                address,
                port,
                status_frame_len,
                status_id,
                body_len,
                pinged,
                pong_frame_len,
                pong_id,
                ponged,
            ),
        ) == (ServerPingResult { online: false, latency: 0 }),
{
    let failed = ProbeState::Failed(ProtocolError::UnexpectedPacket);
    let start = after_requests(address, port, 0);
    assert(start == reading_status(Awaiting::FrameLength));
    lemma_status_header(address, port, 0, status_frame_len, status_id, body_len);
    let head = varint_encoding(status_frame_len) + varint_encoding(status_id);
    lemma_feed_concat(address, port, start, head, varint_encoding(body_len), 0);
    lemma_feed_ended(address, port, failed, varint_encoding(body_len), 0);
    lemma_feed_ended(
        address,
        port,
        failed,
        varint_encoding(pong_frame_len) + varint_encoding(pong_id),
        ponged,
    );
}

/// Bytes fed to a probe that has ended leave it as it is.
pub proof fn lemma_feed_ended(address: Seq<u8>, port: u16, state: ProbeState, bytes: Seq<u8>, now: u64)
    requires
        state.is_terminal(),
    ensures
        spec_feed(address, port, state, bytes, now) == state,
    decreases bytes.len(),
{
    if bytes.len() > 0 {
        lemma_feed_ended(address, port, state, bytes.skip(1), now);
    }
}

/// Whatever a probe hands out for writing is one whole frame: the length that
/// its prefix declares is the number of bytes that follow.
pub proof fn lemma_sends_are_frames(address: Seq<u8>, port: u16, state: ProbeState, event: Event, now: u64)
    requires
        address.len() <= MAX_ADDRESS_LEN,
    ensures
        spec_step(address, port, state, event, now).1 matches ActionView::Send(bytes) ==> is_frame(
            bytes,
        ),
{
    lemma_handshake_fields(PROTOCOL_VERSION, address, port);
    lemma_framed_is_frame(handshake_payload(PROTOCOL_VERSION, address, port));
    lemma_status_request_is_frame();
    lemma_encoding_len(PING_PACKET_ID);
    lemma_framed_is_frame(ping_payload(now));
}

} // verus!
