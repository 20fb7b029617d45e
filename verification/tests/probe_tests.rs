use server_probe::error::ProtocolError;
use server_probe::frame::{handshake_frame, ping_frame, PingTarget};
use server_probe::probe::{
    elapsed_millis, outcome, ping_result, start, step, Action, Awaiting, Event, ProbeState,
    ServerPingResult,
};
use server_probe::varint::{encode_varint, VarIntDecoder};

const OFFLINE: ServerPingResult = ServerPingResult { online: false, latency: 0 };

fn target() -> PingTarget {
    PingTarget::new(String::from("example.com"), 25565).unwrap()
}

fn sent(action: Action) -> Vec<u8> {
    match action {
        Action::Send(bytes) => bytes,
        other => panic!("{:?}", other),
    }
}

fn feed(t: &PingTarget, mut state: ProbeState, bytes: &[u8], now: u64) -> (ProbeState, Action) {
    let mut action = Action::ReadByte;
    for b in bytes {
        assert!(matches!(action, Action::ReadByte));
        let r = step(t, state, Event::Byte(*b), now);
        state = r.0;
        action = r.1;
    }
    (state, action)
}

fn up_to_status_response(t: &PingTarget) -> ProbeState {
    let (state, action) = start();
    assert_eq!(state, ProbeState::Connecting);
    assert!(matches!(action, Action::Connect));
    let (state, action) = step(t, state, Event::Connected, 10);
    assert_eq!(state, ProbeState::HandshakeSent);
    assert_eq!(sent(action), handshake_frame(t));
    let (state, action) = step(t, state, Event::Written, 20);
    assert_eq!(
        state,
        ProbeState::StatusRequested { awaiting: Awaiting::Flush, decoder: VarIntDecoder::new() }
    );
    assert_eq!(sent(action), vec![0x01, 0x00]);
    let (state, action) = step(t, state, Event::Written, 30);
    assert!(matches!(action, Action::ReadByte));
    state
}

fn status_frame(id: i32, body_len: i32) -> Vec<u8> {
    let mut payload = encode_varint(id);
    payload.extend(encode_varint(body_len));
    let mut bytes = encode_varint(payload.len() as i32 + body_len.max(0));
    bytes.extend(payload);
    bytes
}

#[test]
fn happy_path_reports_online_with_latency() {
    let t = target();
    let state = up_to_status_response(&t);
    let (state, action) = feed(&t, state, &status_frame(0, 300), 40);
    match action {
        Action::ReadExact(n) => assert_eq!(n, 300),
        other => panic!("{:?}", other),
    }
    let (state, action) = step(&t, state, Event::Filled, 1_000_000);
    assert_eq!(state, ProbeState::StatusReceived { started: 1_000_000 });
    assert_eq!(sent(action), ping_frame(1_000_000));
    let (state, action) = step(&t, state, Event::Written, 1_000_500);
    assert!(matches!(action, Action::ReadByte));
    let (state, action) = feed(&t, state, &[0x09, 0x01], 2_000_000);
    match action {
        Action::ReadExact(n) => assert_eq!(n, 8),
        other => panic!("{:?}", other),
    }
    let (state, action) = step(&t, state, Event::Filled, 43_500_000);
    assert!(matches!(action, Action::Finish));
    assert_eq!(state, ProbeState::Succeeded(42));
    assert_eq!(outcome(state), Some(Ok(42)));
    assert_eq!(ping_result(state), ServerPingResult { online: true, latency: 42 });
}

#[test]
fn unexpected_status_packet_id_fails() {
    let t = target();
    let state = up_to_status_response(&t);
    let response = status_frame(0x05, 2);
    let (state, action) = feed(&t, state, &response[..2], 40);
    assert!(matches!(action, Action::Finish));
    assert_eq!(state, ProbeState::Failed(ProtocolError::UnexpectedPacket));
    assert_eq!(ping_result(state), OFFLINE);
}

#[test]
fn unexpected_pong_packet_id_fails() {
    let t = target();
    let state = ProbeState::PingSent {
        started: 5,
        awaiting: Awaiting::FrameLength,
        decoder: VarIntDecoder::new(),
    };
    let (state, action) = feed(&t, state, &[0x09, 0x00], 40);
    assert!(matches!(action, Action::Finish));
    assert_eq!(state, ProbeState::Failed(ProtocolError::UnexpectedPacket));
}

#[test]
fn silent_server_times_out_offline() {
    let t = target();
    let state = up_to_status_response(&t);
    let (state, action) = step(&t, state, Event::TimedOut, 200_000_000);
    assert!(matches!(action, Action::Finish));
    assert_eq!(state, ProbeState::Failed(ProtocolError::Timeout));
    assert_eq!(outcome(state), Some(Err(ProtocolError::Timeout)));
    assert_eq!(ping_result(state), OFFLINE);
}

#[test]
fn unreachable_target_fails_at_connect() {
    let t = target();
    let (state, _) = start();
    let (refused, action) = step(&t, state, Event::IoFailed, 1);
    assert!(matches!(action, Action::Finish));
    assert_eq!(refused, ProbeState::Failed(ProtocolError::Io));
    assert_eq!(ping_result(refused), OFFLINE);
    let (late, _) = step(&t, state, Event::TimedOut, 1);
    assert_eq!(late, ProbeState::Failed(ProtocolError::ConnectTimeout));
    assert_eq!(ping_result(late), OFFLINE);
}

#[test]
fn closed_stream_fails_mid_read() {
    let t = target();
    let state = up_to_status_response(&t);
    let (state, _) = step(&t, state, Event::Byte(0x80), 1);
    let (state, action) = step(&t, state, Event::Closed, 2);
    assert!(matches!(action, Action::Finish));
    assert_eq!(state, ProbeState::Failed(ProtocolError::ConnectionClosed));
}

#[test]
fn short_pong_is_a_failure() {
    let t = target();
    let state = ProbeState::PingSent {
        started: 5,
        awaiting: Awaiting::Body,
        decoder: VarIntDecoder::new(),
    };
    let (state, _) = step(&t, state, Event::Closed, 9);
    assert_eq!(state, ProbeState::Failed(ProtocolError::ConnectionClosed));
    assert_eq!(ping_result(state), OFFLINE);
}

#[test]
fn endless_varint_from_the_server_is_malformed() {
    let t = target();
    let state = up_to_status_response(&t);
    let (state, action) = feed(&t, state, &[0xff, 0xff, 0xff, 0xff, 0xff], 40);
    assert!(matches!(action, Action::Finish));
    assert_eq!(state, ProbeState::Failed(ProtocolError::MalformedVarInt));
}

#[test]
fn negative_status_length_is_malformed() {
    let t = target();
    let state = up_to_status_response(&t);
    let (state, action) = feed(&t, state, &status_frame(0, -1), 40);
    assert!(matches!(action, Action::Finish));
    assert_eq!(state, ProbeState::Failed(ProtocolError::MalformedVarInt));
}

#[test]
fn empty_status_document_is_accepted() {
    let t = target();
    let state = up_to_status_response(&t);
    let (state, action) = feed(&t, state, &status_frame(0, 0), 40);
    match action {
        Action::ReadExact(n) => assert_eq!(n, 0),
        other => panic!("{:?}", other),
    }
    let (state, _) = step(&t, state, Event::Filled, 50);
    assert_eq!(state, ProbeState::StatusReceived { started: 50 });
}

#[test]
fn an_ended_probe_stays_as_it_is() {
    let t = target();
    for state in [ProbeState::Succeeded(7), ProbeState::Failed(ProtocolError::Io)] {
        for event in [Event::Connected, Event::Written, Event::Byte(1), Event::Filled,
            Event::Closed, Event::IoFailed, Event::TimedOut]
        {
            let (next, action) = step(&t, state, event, 99);
            assert_eq!(next, state);
            assert!(matches!(action, Action::Finish));
        }
    }
    assert!(ProbeState::Succeeded(7).terminal());
    assert!(!ProbeState::Connecting.terminal());
}

#[test]
fn an_event_out_of_turn_ends_the_probe() {
    let t = target();
    let (state, _) = step(&t, ProbeState::Connecting, Event::Byte(0), 1);
    assert_eq!(state, ProbeState::Failed(ProtocolError::Io));
    let (state, _) = step(&t, ProbeState::HandshakeSent, Event::Filled, 1);
    assert_eq!(state, ProbeState::Failed(ProtocolError::Io));
}

#[test]
fn latency_is_whole_milliseconds() {
    assert_eq!(elapsed_millis(0, 999_999), 0);
    assert_eq!(elapsed_millis(0, 1_000_000), 1);
    assert_eq!(elapsed_millis(1_000_000, 43_500_000), 42);
    assert_eq!(elapsed_millis(10, 5), 0);
}

#[test]
fn offline_result_has_zero_latency() {
    for state in [
        ProbeState::Connecting,
        ProbeState::HandshakeSent,
        ProbeState::StatusReceived { started: 77 },
        ProbeState::Failed(ProtocolError::Timeout),
        ProbeState::Failed(ProtocolError::UnexpectedPacket),
    ] {
        assert_eq!(ping_result(state), OFFLINE);
    }
    assert_eq!(outcome(ProbeState::Connecting), None);
}
