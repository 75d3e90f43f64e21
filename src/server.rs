use vstd::prelude::*;

use crate::client::{
    ack_frame, all_replies, all_writes, client_run, client_start, reply_bytes, written_total,
    AckMode, ClientEvent,
};
use crate::error::{Error, ProtocolFault, TransportOp};
use crate::payload::decodes_context;
use crash_context::CrashContext;
use vstd::layout::size_of;
use crate::wire::{
    append_bytes, copy_range, decode_frame, encode_frame, frame_body, frame_len, holds_frame,
    frame_image, header_image, lemma_frame_prefix_stable, lemma_header_round_trip, parse_header, Decoded, MessageHeader,
    MessageKind, HEADER_SIZE,
};

verus! {

/// Where a server session stands. A session serves one connection and one
/// crash, then ends.
#[derive(Clone, Copy, Debug, PartialEq, Eq, Structural)]
pub enum ServerPhase {
    /// Waiting for the one client to connect.
    Accepting,
    /// Reading frames until a crash frame is whole or the peer closes.
    Reading,
    /// The crash body is with the crash-processing step.
    Processing,
    /// Writing the acknowledgement frame.
    Acknowledging,
    /// Done: the crash was handled, or the peer closed between frames.
    Finished,
    Failed(Error),
}

/// What happened to the last action of a server session.
#[derive(Debug)]
pub enum ServerEvent {
    Accepted,
    AcceptFailed,
    /// These bytes arrived from the peer.
    Received(Vec<u8>),
    /// The peer closed its end.
    PeerClosed,
    ReadFailed,
    /// The crash-processing step took the crash.
    Processed,
    /// The crash-processing step failed with this error.
    ProcessFailed(Error),
    /// The channel took this many bytes of the requested write.
    Wrote(usize),
    WriteFailed,
}

/// What a server session asks its transport to do next.
#[derive(Debug)]
pub enum ServerAction {
    Accept,
    Read,
    /// Hand this crash body to the crash-processing step.
    Process(Vec<u8>),
    /// Write these bytes; report how many were taken.
    Write(Vec<u8>),
    Finish(Result<(), Error>),
}

/// The abstract state of a server session.
pub struct ServerState {
    pub mode: AckMode,
    pub phase: ServerPhase,
    /// Bytes received and not yet taken by a frame.
    pub inbox: Seq<u8>,
    /// The body of the crash frame, once one is whole.
    pub crash: Seq<u8>,
    /// How much of the acknowledgement frame the channel has taken.
    pub ack_written: nat,
}

impl ServerState {
    pub open spec fn wf(self) -> bool {
        &&& self.phase is Accepting ==> self.inbox.len() == 0
        &&& self.phase is Reading ==> !holds_frame(self.inbox)
        &&& self.phase is Acknowledging ==> self.ack_written < ack_frame().len()
    }

    pub open spec fn with_phase(self, phase: ServerPhase) -> ServerState {
        ServerState { phase, ..self }
    }
}

/// The state a session starts in.
pub open spec fn server_start(mode: AckMode) -> ServerState {
    ServerState {
        mode,
        phase: ServerPhase::Accepting,
        inbox: Seq::empty(),
        crash: Seq::empty(),
        ack_written: 0,
    }
}

/// `b` with the whole frames of kinds other than `Crash` at its start
/// removed: those are ignored, so that new kinds can be added to the protocol.
pub open spec fn skip_ignored(b: Seq<u8>) -> Seq<u8>
    decreases b.len(),
{
    if holds_frame(b) && parse_header(b).kind != MessageKind::Crash {
        skip_ignored(b.skip(frame_len(b)))
    } else {
        b
    }
}

/// How the bytes `chunk` move a reading session on.
pub open spec fn server_receive(s: ServerState, chunk: Seq<u8>) -> ServerState {
    let buf = skip_ignored(s.inbox + chunk);
    if holds_frame(buf) {
        ServerState {
            phase: ServerPhase::Processing,
            crash: frame_body(buf),
            inbox: buf.skip(frame_len(buf)),
            ..s
        }
    } else {
        ServerState { inbox: buf, ..s }
    }
}

/// How the peer closing moves a reading session on: between frames it is a
/// clean end, in the middle of one a protocol error.
pub open spec fn server_closed(s: ServerState) -> ServerPhase {
    if s.inbox.len() == 0 {
        ServerPhase::Finished
    } else if s.inbox.len() < HEADER_SIZE {
        ServerPhase::Failed(Error::Protocol(ProtocolFault::TruncatedHeader))
    } else {
        ServerPhase::Failed(Error::Protocol(ProtocolFault::TruncatedBody))
    }
}

/// How an event moves a server session on. Events that do not belong to the
/// current phase leave the session as it is.
pub open spec fn server_next(s: ServerState, e: ServerEvent) -> ServerState {
    match s.phase {
        ServerPhase::Accepting => match e {
            ServerEvent::Accepted => s.with_phase(ServerPhase::Reading),
            ServerEvent::AcceptFailed => s.with_phase(
                ServerPhase::Failed(Error::Transport(TransportOp::Accept)),
            ),
            _ => s,
        },
        ServerPhase::Reading => match e {
            ServerEvent::Received(chunk) => server_receive(s, chunk@),
            ServerEvent::PeerClosed => s.with_phase(server_closed(s)),
            ServerEvent::ReadFailed => s.with_phase(
                ServerPhase::Failed(Error::Transport(TransportOp::Read)),
            ),
            _ => s,
        },
        ServerPhase::Processing => match e {
            ServerEvent::Processed => if s.mode is Stream {
                ServerState { phase: ServerPhase::Acknowledging, ack_written: 0, ..s }
            } else {
                s.with_phase(ServerPhase::Finished)
            },
            ServerEvent::ProcessFailed(err) => s.with_phase(ServerPhase::Failed(err)),
            _ => s,
        },
        ServerPhase::Acknowledging => match e {
            ServerEvent::Wrote(n) => if n == 0 || s.ack_written + n > ack_frame().len() {
                s.with_phase(ServerPhase::Failed(Error::Transport(TransportOp::Write)))
            } else if s.ack_written + n == ack_frame().len() {
                ServerState {
                    phase: ServerPhase::Finished,
                    ack_written: ack_frame().len(),
                    ..s
                }
            } else {
                ServerState { ack_written: (s.ack_written + n) as nat, ..s }
            },
            ServerEvent::WriteFailed => s.with_phase(
                ServerPhase::Failed(Error::Transport(TransportOp::Write)),
            ),
            _ => s,
        },
        _ => s,
    }
}

/// `a` is the action that state `s` calls for.
pub open spec fn server_action(s: ServerState, a: ServerAction) -> bool {
    match s.phase {
        ServerPhase::Accepting => a is Accept,
        ServerPhase::Reading => a is Read,
        ServerPhase::Processing => a matches ServerAction::Process(b) && b@ == s.crash,
        ServerPhase::Acknowledging => a matches ServerAction::Write(b) && b@ == ack_frame().skip(
            s.ack_written as int,
        ),
        ServerPhase::Finished => a matches ServerAction::Finish(r) && r == Ok::<(), Error>(()),
        ServerPhase::Failed(e) => a matches ServerAction::Finish(r) && r == Err::<(), Error>(e),
    }
}

/// The monitor's side of the exchange: accept one connection, read frames
/// until a crash frame is whole, hand its body on, acknowledge it.
pub struct ServerSession {
    mode: AckMode,
    phase: ServerPhase,
    inbox: Vec<u8>,
    crash: Vec<u8>,
    ack_written: usize,
}

impl View for ServerSession {
    type V = ServerState;

    closed spec fn view(&self) -> ServerState {
        ServerState {
            mode: self.mode,
            phase: self.phase,
            inbox: self.inbox@,
            crash: self.crash@,
            ack_written: self.ack_written as nat,
        }
    }
}

/// The acknowledgement frame.
fn ack_bytes() -> (r: Vec<u8>)
    ensures
        r@ == ack_frame(),
        r@.len() == HEADER_SIZE,
{
    proof {
        lemma_ack_frame_len();
    }
    let empty: Vec<u8> = Vec::new();
    encode_frame(MessageKind::CrashAck, empty.as_slice())
}

/// The acknowledgement frame is a bare header.
proof fn lemma_ack_frame_len()
    ensures
        ack_frame().len() == HEADER_SIZE,
{
    vstd::bytes::lemma_auto_spec_u64_to_from_le_bytes();
}

impl ServerSession {
    /// Starts a session, before its connection is accepted.
    pub fn new(mode: AckMode) -> (s: ServerSession)
        ensures
            s@ == server_start(mode),
            s@.wf(),
    {
        ServerSession {
            mode,
            phase: ServerPhase::Accepting,
            inbox: Vec::new(),
            crash: Vec::new(),
            ack_written: 0,
        }
    }

    /// The action that the session calls for now.
    pub fn next_action(&self) -> (a: ServerAction)
        requires
            self@.wf(),
        ensures
            server_action(self@, a),
    {
        match self.phase {
            ServerPhase::Accepting => ServerAction::Accept,
            ServerPhase::Reading => ServerAction::Read,
            ServerPhase::Processing => {
                let body = copy_range(self.crash.as_slice(), 0, self.crash.len());
                assert(self.crash@.subrange(0, self.crash@.len() as int) == self.crash@);
                ServerAction::Process(body)
            },
            ServerPhase::Acknowledging => {
                let ack = ack_bytes();
                ServerAction::Write(copy_range(ack.as_slice(), self.ack_written, ack.len()))
            },
            ServerPhase::Finished => ServerAction::Finish(Ok(())),
            ServerPhase::Failed(e) => ServerAction::Finish(Err(e)),
        }
    }

    /// Takes in the bytes `chunk` while reading.
    fn receive(&mut self, chunk: &[u8])
        requires
            old(self)@.wf(),
            old(self)@.phase is Reading,
        ensures
            final(self)@ == server_receive(old(self)@, chunk@),
    {
        append_bytes(&mut self.inbox, chunk);
        let ghost total = self.inbox@;
        assert(total == old(self)@.inbox + chunk@);
        loop
            invariant
                self.phase is Reading,
                old(self).phase is Reading,
                skip_ignored(self.inbox@) == skip_ignored(total),
                total == old(self)@.inbox + chunk@,
                self.mode == old(self).mode,
                self.crash == old(self).crash,
                self.ack_written == old(self).ack_written,
            decreases self.inbox@.len(),
        {
            let ghost buf = self.inbox@;
            match decode_frame(self.inbox.as_slice(), false) {
                Decoded::Complete { kind, body, used } => {
                    let rest = copy_range(self.inbox.as_slice(), used, self.inbox.len());
                    assert(rest@ == buf.skip(frame_len(buf)));
                    if kind == MessageKind::Crash {
                        assert(skip_ignored(buf) == buf);
                        self.crash = body;
                        self.inbox = rest;
                        self.phase = ServerPhase::Processing;
                        return;
                    }
                    self.inbox = rest;
                },
                _ => {
                    assert(skip_ignored(buf) == buf);
                    return;
                },
            }
        }
    }

    /// Moves the session on by what happened to its last action.
    pub fn on_event(&mut self, e: ServerEvent)
        requires
            old(self)@.wf(),
        ensures
            final(self)@ == server_next(old(self)@, e),
            final(self)@.wf(),
    {
        match self.phase {
            ServerPhase::Accepting => match e {
                ServerEvent::Accepted => self.phase = ServerPhase::Reading,
                ServerEvent::AcceptFailed => {
                    self.phase = ServerPhase::Failed(Error::Transport(TransportOp::Accept));
                },
                _ => {},
            },
            ServerPhase::Reading => match e {
                ServerEvent::Received(chunk) => self.receive(chunk.as_slice()),
                ServerEvent::PeerClosed => {
                    self.phase = if self.inbox.len() == 0 {
                        ServerPhase::Finished
                    } else if self.inbox.len() < HEADER_SIZE {
                        ServerPhase::Failed(Error::Protocol(ProtocolFault::TruncatedHeader))
                    } else {
                        ServerPhase::Failed(Error::Protocol(ProtocolFault::TruncatedBody))
                    };
                },
                ServerEvent::ReadFailed => {
                    self.phase = ServerPhase::Failed(Error::Transport(TransportOp::Read));
                },
                _ => {},
            },
            ServerPhase::Processing => match e {
                ServerEvent::Processed => {
                    match self.mode {
                        AckMode::Stream => {
                            proof {
                                lemma_ack_frame_len();
                            }
                            self.phase = ServerPhase::Acknowledging;
                            self.ack_written = 0;
                        },
                        AckMode::Port => self.phase = ServerPhase::Finished,
                    }
                },
                ServerEvent::ProcessFailed(err) => self.phase = ServerPhase::Failed(err),
                _ => {},
            },
            ServerPhase::Acknowledging => match e {
                ServerEvent::Wrote(n) => {
                    let total = ack_bytes().len();
                    let left = total - self.ack_written;
                    if n == 0 || n > left {
                        self.phase = ServerPhase::Failed(Error::Transport(TransportOp::Write));
                    } else if n == left {
                        self.ack_written = total;
                        self.phase = ServerPhase::Finished;
                    } else {
                        self.ack_written = self.ack_written + n;
                    }
                },
                ServerEvent::WriteFailed => {
                    self.phase = ServerPhase::Failed(Error::Transport(TransportOp::Write));
                },
                _ => {},
            },
            _ => {},
        }
    }
}

/// A whole crash frame at the start of `b` is what a reading session takes,
/// with whatever follows it.
proof fn lemma_crash_frame_taken(payload: Seq<u8>, rest: Seq<u8>)
    requires
        payload.len() <= u64::MAX,
    ensures
        holds_frame(frame_image(MessageKind::Crash, payload) + rest),
        skip_ignored(frame_image(MessageKind::Crash, payload) + rest) == frame_image(
            MessageKind::Crash,
            payload,
        ) + rest,
        frame_body(frame_image(MessageKind::Crash, payload) + rest) == payload,
        frame_len(frame_image(MessageKind::Crash, payload) + rest) == frame_image(
            MessageKind::Crash,
            payload,
        ).len(),
{
    let h = MessageHeader { kind: MessageKind::Crash, len: payload.len() as u64 };
    lemma_header_round_trip(h, payload + rest);
    assert(frame_image(MessageKind::Crash, payload) + rest == header_image(h) + (payload + rest));
}

/// Frames of kinds other than `Crash` ahead of a crash frame are skipped:
/// the session takes the crash body all the same.
pub proof fn lemma_other_kinds_ignored(
    kind: MessageKind,
    body: Seq<u8>,
    payload: Seq<u8>,
)
    requires
        kind.is_valid(),
        kind != MessageKind::Crash,
        body.len() <= u64::MAX,
        payload.len() <= u64::MAX,
    ensures
        skip_ignored(frame_image(kind, body) + frame_image(MessageKind::Crash, payload))
            == frame_image(MessageKind::Crash, payload),
{
    let h = MessageHeader { kind, len: body.len() as u64 };
    let crash = frame_image(MessageKind::Crash, payload);
    let b = frame_image(kind, body) + crash;
    lemma_header_round_trip(h, body + crash);
    assert(b == header_image(h) + (body + crash));
    assert(b.skip(frame_len(b)) == crash);
    lemma_crash_frame_taken(payload, Seq::empty());
    assert(crash + Seq::<u8>::empty() == crash);
}

/// The session in stream mode once its one connection is accepted.
pub open spec fn server_reading() -> ServerState {
    server_next(server_start(AckMode::Stream), ServerEvent::Accepted)
}

/// One whole exchange in stream mode: the client's crash frame, delivered in
/// reads split in any way, puts its payload in the server's hands; once
/// processed, the server writes the acknowledgement frame, and that frame
/// makes the client succeed, also when it comes in several reads.
pub proof fn lemma_exchange(
    payload: Seq<u8>,
    reads: Seq<ServerEvent>,
    writes: Seq<ClientEvent>,
    replies: Seq<ClientEvent>,
)
    requires
        payload.len() <= u64::MAX,
        all_reads(reads),
        read_bytes(reads) == frame_image(MessageKind::Crash, payload),
        all_writes(writes),
        written_total(writes) == frame_image(MessageKind::Crash, payload).len(),
        all_replies(replies),
        reply_bytes(replies) == ack_frame(),
    ensures
        server_run(server_reading(), reads).phase is Processing,
        server_run(server_reading(), reads).crash == payload,
        server_next(server_run(server_reading(), reads), ServerEvent::Processed).phase is Acknowledging,
        server_next(server_run(server_reading(), reads), ServerEvent::Processed).ack_written == 0,
        client_run(client_run(client_start(AckMode::Stream, payload), writes), replies).phase
            is Succeeded,
{
    let frame = frame_image(MessageKind::Crash, payload);
    lemma_reads_split(server_reading(), reads);
    lemma_crash_frame_taken(payload, Seq::empty());
    assert(frame + Seq::<u8>::empty() == frame);
    assert(Seq::<u8>::empty() + frame == frame);
    crate::client::lemma_ack_contract(payload, writes, replies);
}

/// A whole crash frame whose body does not have the record's size is refused
/// as a payload error: the session then ends in that error and never writes
/// an acknowledgement.
pub proof fn lemma_wrong_payload_size(
    body: Seq<u8>,
    reads: Seq<ServerEvent>,
    decoded: Result<CrashContext, Error>,
)
    requires
        body.len() <= u64::MAX,
        body.len() != size_of::<CrashContext>(),
        all_reads(reads),
        read_bytes(reads) == frame_image(MessageKind::Crash, body),
        decodes_context(server_run(server_reading(), reads).crash, decoded),
    ensures
        decoded == Err::<CrashContext, Error>(Error::Payload),
        server_next(
            server_run(server_reading(), reads),
            ServerEvent::ProcessFailed(Error::Payload),
        ).phase == ServerPhase::Failed(Error::Payload),
{
    let frame = frame_image(MessageKind::Crash, body);
    lemma_reads_split(server_reading(), reads);
    lemma_crash_frame_taken(body, Seq::empty());
    assert(frame + Seq::<u8>::empty() == frame);
    assert(Seq::<u8>::empty() + frame == frame);
}

/// A client that closes partway through its crash frame never has its crash
/// processed, however its bytes were split into reads: the session fails with
/// a truncated header or body, and only a close before any byte is a clean end.
pub proof fn lemma_session_truncation(payload: Seq<u8>, n: int, reads: Seq<ServerEvent>)
    requires
        payload.len() <= u64::MAX,
        0 <= n < frame_image(MessageKind::Crash, payload).len(),
        all_reads(reads),
        read_bytes(reads) == frame_image(MessageKind::Crash, payload).take(n),
    ensures
        server_run(server_reading(), reads).phase is Reading,
        server_next(server_run(server_reading(), reads), ServerEvent::PeerClosed).phase == if n
            == 0 {
            ServerPhase::Finished
        } else if n < HEADER_SIZE {
            ServerPhase::Failed(Error::Protocol(ProtocolFault::TruncatedHeader))
        } else {
            ServerPhase::Failed(Error::Protocol(ProtocolFault::TruncatedBody))
        },
{
    let h = MessageHeader { kind: MessageKind::Crash, len: payload.len() as u64 };
    let cut = frame_image(MessageKind::Crash, payload).take(n);
    lemma_reads_split(server_reading(), reads);
    assert(Seq::<u8>::empty() + cut == cut);
    lemma_header_round_trip(h, payload);
    if n >= HEADER_SIZE {
        lemma_header_round_trip(h, payload.take(n - HEADER_SIZE));
        assert(cut == header_image(h) + payload.take(n - HEADER_SIZE));
    }
    assert(!holds_frame(cut));
    assert(skip_ignored(cut) == cut);
}

/// The state a session reaches after the events `es`, in order.
pub open spec fn server_run(s: ServerState, es: Seq<ServerEvent>) -> ServerState
    decreases es.len(),
{
    if es.len() == 0 {
        s
    } else {
        server_run(server_next(s, es[0]), es.drop_first())
    }
}

/// Every event of `es` is a read that brought bytes.
pub open spec fn all_reads(es: Seq<ServerEvent>) -> bool {
    forall|i: int| 0 <= i < es.len() ==> #[trigger] es[i] is Received
}

/// The bytes that the reads `es` brought, in order.
pub open spec fn read_bytes(es: Seq<ServerEvent>) -> Seq<u8>
    decreases es.len(),
{
    if es.len() == 0 {
        Seq::empty()
    } else {
        (if let ServerEvent::Received(c) = es[0] {
            c@
        } else {
            Seq::empty()
        }) + read_bytes(es.drop_first())
    }
}

/// Skipping ignored frames commutes with more bytes arriving.
proof fn lemma_skip_append(x: Seq<u8>, y: Seq<u8>)
    ensures
        holds_frame(skip_ignored(x)) ==> skip_ignored(x + y) == skip_ignored(x) + y,
        !holds_frame(skip_ignored(x)) ==> skip_ignored(x + y) == skip_ignored(
            skip_ignored(x) + y,
        ),
    decreases x.len(),
{
    lemma_frame_prefix_stable(x, y);
    if holds_frame(x) && parse_header(x).kind != MessageKind::Crash {
        let rest = x.skip(frame_len(x));
        lemma_skip_append(rest, y);
    }
}

/// A session past reading is left as it is by further reads.
proof fn lemma_reads_after_reading(s: ServerState, es: Seq<ServerEvent>)
    requires
        all_reads(es),
        !(s.phase is Reading),
    ensures
        server_run(s, es) == s,
    decreases es.len(),
{
    if es.len() > 0 {
        assert(es[0] is Received);
        assert(server_next(s, es[0]) == s);
        assert forall|i: int| 0 <= i < es.drop_first().len() implies #[trigger] es.drop_first()[i] is Received by {
            assert(es[i + 1] is Received);
        }
        lemma_reads_after_reading(s, es.drop_first());
    }
}

/// However the peer's bytes are split into reads, a reading session ends up
/// where one read of all of them takes it: same phase and same crash body,
/// and the same unread bytes while it still reads.
pub proof fn lemma_reads_split(s: ServerState, es: Seq<ServerEvent>)
    requires
        s.phase is Reading,
        s.wf(),
        all_reads(es),
    ensures
        server_run(s, es).phase == server_receive(s, read_bytes(es)).phase,
        server_run(s, es).crash == server_receive(s, read_bytes(es)).crash,
        server_run(s, es).mode == s.mode,
        server_run(s, es).ack_written == s.ack_written,
        server_run(s, es).phase is Reading ==> server_run(s, es).inbox == server_receive(
            s,
            read_bytes(es),
        ).inbox,
    decreases es.len(),
{
    let bytes = read_bytes(es);
    if es.len() == 0 {
        assert(s.inbox + bytes == s.inbox);
        assert(skip_ignored(s.inbox) == s.inbox);
    } else {
        let c = es[0]->Received_0@;
        let rest = es.drop_first();
        assert forall|i: int| 0 <= i < rest.len() implies #[trigger] rest[i] is Received by {
            assert(es[i + 1] is Received);
        }
        assert(bytes == c + read_bytes(rest));
        let s1 = server_next(s, es[0]);
        assert(s1 == server_receive(s, c));
        let x = s.inbox + c;
        lemma_skip_append(x, read_bytes(rest));
        assert(s.inbox + bytes == x + read_bytes(rest));
        if holds_frame(skip_ignored(x)) {
            lemma_reads_after_reading(s1, rest);
            lemma_frame_prefix_stable(skip_ignored(x), read_bytes(rest));
        } else {
            lemma_reads_split(s1, rest);
        }
    }
}

} // verus!
