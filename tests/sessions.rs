use crash_recovery::{
    check_address, claim_address, cleanup_result, encode_frame, AckMode, ClientAction,
    ClientEvent, ClientSession, Error, MessageKind, ProtocolFault, Removal, ServerAction,
    ServerEvent, ServerSession, TransportOp, MAX_ADDRESS_LEN,
};

fn ack() -> Vec<u8> {
    encode_frame(MessageKind::CrashAck, &[])
}

/// Runs a client whose writes are taken `step` bytes at a time and whose
/// reads return the given replies in turn; returns its result and what it wrote.
fn run_client(
    mode: AckMode,
    payload: &[u8],
    step: usize,
    mut replies: Vec<ClientEvent>,
) -> (Result<(), Error>, Vec<u8>) {
    let mut s = ClientSession::new(mode, payload);
    let mut wire = Vec::new();
    replies.reverse();
    for _ in 0..10_000 {
        match s.next_action() {
            ClientAction::DeliverViaPort { send_timeout_ms, ack_timeout_ms } => {
                assert_eq!((send_timeout_ms, ack_timeout_ms), (2000, 5000));
                s.on_event(ClientEvent::PortDelivered);
            }
            ClientAction::Write(bytes) => {
                let n = step.min(bytes.len());
                wire.extend_from_slice(&bytes[..n]);
                s.on_event(ClientEvent::Wrote(n));
            }
            ClientAction::ReadReply { wait_ms } => {
                assert_eq!(wait_ms, 2000);
                let e = replies.pop().unwrap_or(ClientEvent::NoReply);
                s.on_event(e);
            }
            ClientAction::Finish(r) => return (r, wire),
        }
    }
    panic!("client session did not finish");
}

/// Runs a server that receives `input` in chunks of `step` bytes, then sees
/// the peer close; returns its result, the bodies it processed and what it wrote.
fn run_server(mode: AckMode, input: &[u8], step: usize) -> (Result<(), Error>, Vec<Vec<u8>>, Vec<u8>) {
    let mut s = ServerSession::new(mode);
    let mut at = 0;
    let mut processed = Vec::new();
    let mut out = Vec::new();
    for _ in 0..10_000 {
        match s.next_action() {
            ServerAction::Accept => s.on_event(ServerEvent::Accepted),
            ServerAction::Read => {
                if at < input.len() {
                    let end = (at + step).min(input.len());
                    s.on_event(ServerEvent::Received(input[at..end].to_vec()));
                    at = end;
                } else {
                    s.on_event(ServerEvent::PeerClosed);
                }
            }
            ServerAction::Process(body) => {
                processed.push(body);
                s.on_event(ServerEvent::Processed);
            }
            ServerAction::Write(bytes) => {
                out.extend_from_slice(&bytes);
                s.on_event(ServerEvent::Wrote(bytes.len()));
            }
            ServerAction::Finish(r) => return (r, processed, out),
        }
    }
    panic!("server session did not finish");
}

#[test]
fn end_to_end_exchange_of_a_64_byte_payload() {
    let payload: Vec<u8> = (0..64u8).map(|i| i.wrapping_mul(37)).collect();
    let frame = encode_frame(MessageKind::Crash, &payload);
    let (server_result, processed, ack_out) = run_server(AckMode::Stream, &frame, frame.len());
    assert_eq!(server_result, Ok(()));
    assert_eq!(processed, vec![payload.clone()]);
    assert_eq!(ack_out, ack());
    let (client_result, wrote) =
        run_client(AckMode::Stream, &payload, usize::MAX, vec![ClientEvent::Received(ack_out)]);
    assert_eq!(client_result, Ok(()));
    assert_eq!(wrote, frame);
    assert_eq!(cleanup_result(Removal::Removed), Ok(()));
    assert_eq!(cleanup_result(Removal::Absent), Ok(()));
}

#[test]
fn server_reassembles_a_frame_sent_byte_by_byte() {
    let payload = vec![3u8; 40];
    let frame = encode_frame(MessageKind::Crash, &payload);
    let (r, processed, out) = run_server(AckMode::Stream, &frame, 1);
    assert_eq!(r, Ok(()));
    assert_eq!(processed, vec![payload]);
    assert_eq!(out, ack());
}

#[test]
fn server_ignores_other_kinds_before_the_crash() {
    let mut input = encode_frame(MessageKind::Other(9), &[1, 2, 3]);
    input.extend(encode_frame(MessageKind::CrashAck, &[]));
    input.extend(encode_frame(MessageKind::Crash, &[4, 5]));
    for step in [1, 5, input.len()] {
        let (r, processed, _) = run_server(AckMode::Stream, &input, step);
        assert_eq!(r, Ok(()));
        assert_eq!(processed, vec![vec![4u8, 5]]);
    }
}

#[test]
fn server_ends_cleanly_when_peer_closes_between_frames() {
    let (r, processed, out) = run_server(AckMode::Stream, &[], 4);
    assert_eq!(r, Ok(()));
    assert!(processed.is_empty());
    assert!(out.is_empty());
    let only_other = encode_frame(MessageKind::Other(3), &[1]);
    let (r, processed, _) = run_server(AckMode::Stream, &only_other, 4);
    assert_eq!(r, Ok(()));
    assert!(processed.is_empty());
}

#[test]
fn server_rejects_truncated_header() {
    let frame = encode_frame(MessageKind::Crash, &[1, 2]);
    let (r, processed, _) = run_server(AckMode::Stream, &frame[..4], 2);
    assert_eq!(r, Err(Error::Protocol(ProtocolFault::TruncatedHeader)));
    assert!(processed.is_empty());
}

#[test]
fn server_rejects_truncated_body() {
    let frame = encode_frame(MessageKind::Crash, &[1, 2, 3, 4, 5]);
    let (r, processed, _) = run_server(AckMode::Stream, &frame[..frame.len() - 1], 3);
    assert_eq!(r, Err(Error::Protocol(ProtocolFault::TruncatedBody)));
    assert!(processed.is_empty());
}

#[test]
fn server_in_port_mode_sends_no_ack() {
    let frame = encode_frame(MessageKind::Crash, &[1, 2, 3, 4]);
    let (r, processed, out) = run_server(AckMode::Port, &frame, 64);
    assert_eq!(r, Ok(()));
    assert_eq!(processed.len(), 1);
    assert!(out.is_empty());
}

#[test]
fn server_reports_transport_and_processing_failures() {
    let mut s = ServerSession::new(AckMode::Stream);
    s.on_event(ServerEvent::AcceptFailed);
    assert!(matches!(
        s.next_action(),
        ServerAction::Finish(Err(Error::Transport(TransportOp::Accept)))
    ));

    let mut s = ServerSession::new(AckMode::Stream);
    s.on_event(ServerEvent::Accepted);
    s.on_event(ServerEvent::ReadFailed);
    assert!(matches!(
        s.next_action(),
        ServerAction::Finish(Err(Error::Transport(TransportOp::Read)))
    ));

    let mut s = ServerSession::new(AckMode::Stream);
    s.on_event(ServerEvent::Accepted);
    s.on_event(ServerEvent::Received(encode_frame(MessageKind::Crash, &[1])));
    assert!(matches!(s.next_action(), ServerAction::Process(ref b) if b == &vec![1u8]));
    s.on_event(ServerEvent::ProcessFailed(Error::Payload));
    assert!(matches!(s.next_action(), ServerAction::Finish(Err(Error::Payload))));

    let mut s = ServerSession::new(AckMode::Stream);
    s.on_event(ServerEvent::Accepted);
    s.on_event(ServerEvent::Received(encode_frame(MessageKind::Crash, &[1])));
    s.on_event(ServerEvent::Processed);
    s.on_event(ServerEvent::Wrote(4));
    assert!(matches!(s.next_action(), ServerAction::Write(ref b) if b.len() == 5));
    s.on_event(ServerEvent::WriteFailed);
    assert!(matches!(
        s.next_action(),
        ServerAction::Finish(Err(Error::Transport(TransportOp::Write)))
    ));
}

#[test]
fn client_succeeds_on_ack_in_pieces() {
    let a = ack();
    let (r, wrote) = run_client(
        AckMode::Stream,
        &[1, 2, 3],
        2,
        vec![ClientEvent::Received(a[..4].to_vec()), ClientEvent::Received(a[4..].to_vec())],
    );
    assert_eq!(r, Ok(()));
    assert_eq!(wrote, encode_frame(MessageKind::Crash, &[1, 2, 3]));
}

#[test]
fn client_fails_without_reply() {
    let (r, _) = run_client(AckMode::Stream, &[1], 100, vec![]);
    assert_eq!(r, Err(Error::Protocol(ProtocolFault::MissingReply)));
    let (r, _) = run_client(AckMode::Stream, &[1], 100, vec![ClientEvent::Received(vec![])]);
    assert_eq!(r, Err(Error::Protocol(ProtocolFault::MissingReply)));
}

#[test]
fn client_fails_on_partial_reply() {
    let (r, _) = run_client(AckMode::Stream, &[1], 100, vec![ClientEvent::Received(ack()[..3].to_vec())]);
    assert_eq!(r, Err(Error::Protocol(ProtocolFault::TruncatedHeader)));
}

#[test]
fn client_fails_on_reply_of_another_kind() {
    for reply in [
        encode_frame(MessageKind::Crash, &[]),
        encode_frame(MessageKind::Other(5), &[]),
        encode_frame(MessageKind::CrashAck, &[1]),
    ] {
        let (r, _) = run_client(AckMode::Stream, &[1], 100, vec![ClientEvent::Received(reply)]);
        assert_eq!(r, Err(Error::Protocol(ProtocolFault::UnexpectedReply)));
    }
}

#[test]
fn client_reports_transport_failures() {
    let mut s = ClientSession::new(AckMode::Stream, &[1, 2]);
    s.on_event(ClientEvent::Wrote(0));
    assert!(matches!(
        s.next_action(),
        ClientAction::Finish(Err(Error::Transport(TransportOp::Write)))
    ));
    let mut s = ClientSession::new(AckMode::Stream, &[1, 2]);
    s.on_event(ClientEvent::WriteFailed);
    assert!(matches!(
        s.next_action(),
        ClientAction::Finish(Err(Error::Transport(TransportOp::Write)))
    ));
    let mut s = ClientSession::new(AckMode::Stream, &[1, 2]);
    s.on_event(ClientEvent::Wrote(11));
    s.on_event(ClientEvent::ReadFailed);
    assert!(matches!(
        s.next_action(),
        ClientAction::Finish(Err(Error::Transport(TransportOp::Read)))
    ));
}

#[test]
fn client_in_port_mode_delivers_first_and_needs_no_ack() {
    let (r, wrote) = run_client(AckMode::Port, &[9, 9, 9, 9], 100, vec![]);
    assert_eq!(r, Ok(()));
    assert_eq!(wrote, encode_frame(MessageKind::Crash, &[9, 9, 9, 9]));
    let mut s = ClientSession::new(AckMode::Port, &[1]);
    s.on_event(ClientEvent::PortFailed);
    assert!(matches!(s.next_action(), ClientAction::Finish(Err(Error::Port))));
}

#[test]
fn second_bind_on_a_live_address_is_a_transport_error() {
    assert_eq!(claim_address(true), Err(Error::Transport(TransportOp::Bind)));
    assert_eq!(claim_address(false), Ok(()));
}

#[test]
fn cleanup_of_missing_artifact_is_no_error() {
    assert_eq!(cleanup_result(Removal::Absent), Ok(()));
    assert_eq!(cleanup_result(Removal::Absent), Ok(()));
    assert_eq!(cleanup_result(Removal::Failed), Err(Error::Transport(TransportOp::Cleanup)));
}

#[test]
fn address_check_bounds() {
    assert_eq!(check_address(b""), Err(Error::InvalidAddress));
    assert_eq!(check_address(&vec![b'a'; MAX_ADDRESS_LEN]), Ok(()));
    assert_eq!(check_address(&vec![b'a'; MAX_ADDRESS_LEN + 1]), Err(Error::InvalidAddress));
    assert_eq!(check_address(b"/tmp/a\0b"), Err(Error::InvalidAddress));
    assert_eq!(check_address(b"/tmp/monitor.sock"), Ok(()));
    assert_eq!(check_address(b"/tmp/\xff\xfe.sock"), Err(Error::InvalidAddress));
    assert_eq!(check_address("/tmp/\u{e9}t\u{e9}.sock".as_bytes()), Ok(()));
}
