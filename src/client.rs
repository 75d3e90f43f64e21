use vstd::prelude::*;

use crate::error::{Error, ProtocolFault, TransportOp};
use crate::wire::{
    append_bytes, copy_range, encode_frame, frame_image, lemma_header_round_trip, parse_header,
    read_header, header_image, MessageHeader, MessageKind, HEADER_SIZE,
};

verus! {

/// Time the side-channel port may take to deliver a crash context.
pub const PORT_SEND_TIMEOUT_MS: u64 = 2000;

/// Time the side-channel port may wait for the monitor's acknowledgement.
pub const PORT_ACK_TIMEOUT_MS: u64 = 5000;

/// How long a client waits for the acknowledgement frame: the monitor is
/// already waiting, and the crashing process cannot wait long.
pub const REPLY_WAIT_MS: u64 = 2000;

/// How the monitor acknowledges a crash.
#[derive(Clone, Copy, Debug, PartialEq, Eq, Structural)]
pub enum AckMode {
    /// With a `CrashAck` frame on the same channel.
    Stream,
    /// Over a synchronous side-channel port, which carries the crash context
    /// and its acknowledgement; the stream then sees only a stand-in message.
    Port,
}

/// Where a client session stands.
#[derive(Clone, Copy, Debug, PartialEq, Eq, Structural)]
pub enum ClientPhase {
    /// Handing the crash context to the side-channel port.
    Delivering,
    /// Writing the crash frame.
    Writing,
    /// Waiting for the acknowledgement frame.
    AwaitingAck,
    Succeeded,
    Failed(Error),
}

/// What happened to the last action of a client session.
#[derive(Debug)]
pub enum ClientEvent {
    /// The port delivered the context and the monitor acknowledged it.
    PortDelivered,
    PortFailed,
    /// The channel took this many bytes of the requested write.
    Wrote(usize),
    WriteFailed,
    /// These bytes arrived in reply.
    Received(Vec<u8>),
    /// No reply came within the time allowed, or the peer closed.
    NoReply,
    ReadFailed,
}

/// What a client session asks its transport to do next.
#[derive(Debug)]
pub enum ClientAction {
    DeliverViaPort { send_timeout_ms: u64, ack_timeout_ms: u64 },
    /// Write these bytes; report how many were taken.
    Write(Vec<u8>),
    /// Read what has arrived, waiting at most `wait_ms` milliseconds.
    ReadReply { wait_ms: u64 },
    Finish(Result<(), Error>),
}

/// The abstract state of a client session.
pub struct ClientState {
    pub mode: AckMode,
    pub phase: ClientPhase,
    /// The crash frame to send.
    pub frame: Seq<u8>,
    /// How much of `frame` the channel has taken.
    pub written: nat,
    /// The reply bytes received so far.
    pub reply: Seq<u8>,
}

impl ClientState {
    pub open spec fn wf(self) -> bool {
        &&& self.written <= self.frame.len()
        &&& (self.phase is Delivering || self.phase is Writing) ==> self.written < self.frame.len()
            && self.reply.len() == 0
        &&& self.phase is AwaitingAck ==> self.reply.len() < HEADER_SIZE
    }

    pub open spec fn with_phase(self, phase: ClientPhase) -> ClientState {
        ClientState { phase, ..self }
    }
}

/// The state a session starts in, sending `payload` in a crash frame.
pub open spec fn client_start(mode: AckMode, payload: Seq<u8>) -> ClientState {
    ClientState {
        mode,
        phase: if mode is Port {
            ClientPhase::Delivering
        } else {
            ClientPhase::Writing
        },
        frame: frame_image(MessageKind::Crash, payload),
        written: 0,
        reply: Seq::empty(),
    }
}

/// The verdict on a reply that holds at least a header: only an empty
/// `CrashAck` frame acknowledges the crash.
pub open spec fn reply_verdict(reply: Seq<u8>) -> ClientPhase {
    if parse_header(reply).kind == MessageKind::CrashAck && parse_header(reply).len == 0 {
        ClientPhase::Succeeded
    } else {
        ClientPhase::Failed(Error::Protocol(ProtocolFault::UnexpectedReply))
    }
}

/// How an event moves a client session on. Events that do not belong to the
/// current phase leave the session as it is.
pub open spec fn client_next(s: ClientState, e: ClientEvent) -> ClientState {
    match s.phase {
        ClientPhase::Delivering => match e {
            ClientEvent::PortDelivered => s.with_phase(ClientPhase::Writing),
            ClientEvent::PortFailed => s.with_phase(ClientPhase::Failed(Error::Port)),
            _ => s,
        },
        ClientPhase::Writing => match e {
            ClientEvent::Wrote(n) => if n == 0 || s.written + n > s.frame.len() {
                s.with_phase(ClientPhase::Failed(Error::Transport(TransportOp::Write)))
            } else if s.written + n == s.frame.len() {
                ClientState {
                    written: s.frame.len(),
                    phase: if s.mode is Stream {
                        ClientPhase::AwaitingAck
                    } else {
                        ClientPhase::Succeeded
                    },
                    ..s
                }
            } else {
                ClientState { written: (s.written + n) as nat, ..s }
            },
            ClientEvent::WriteFailed => s.with_phase(
                ClientPhase::Failed(Error::Transport(TransportOp::Write)),
            ),
            _ => s,
        },
        ClientPhase::AwaitingAck => match e {
            ClientEvent::Received(chunk) => {
                let reply = s.reply + chunk@;
                if reply.len() < HEADER_SIZE {
                    ClientState { reply, ..s }
                } else {
                    ClientState { reply, phase: reply_verdict(reply), ..s }
                }
            },
            ClientEvent::NoReply => s.with_phase(
                ClientPhase::Failed(
                    Error::Protocol(
                        if s.reply.len() == 0 {
                            ProtocolFault::MissingReply
                        } else {
                            ProtocolFault::TruncatedHeader
                        },
                    ),
                ),
            ),
            ClientEvent::ReadFailed => s.with_phase(
                ClientPhase::Failed(Error::Transport(TransportOp::Read)),
            ),
            _ => s,
        },
        _ => s,
    }
}

/// `a` is the action that state `s` calls for.
pub open spec fn client_action(s: ClientState, a: ClientAction) -> bool {
    match s.phase {
        ClientPhase::Delivering => a matches ClientAction::DeliverViaPort {
            send_timeout_ms,
            ack_timeout_ms,
        } && send_timeout_ms == PORT_SEND_TIMEOUT_MS && ack_timeout_ms == PORT_ACK_TIMEOUT_MS,
        ClientPhase::Writing => a matches ClientAction::Write(b) && b@ == s.frame.skip(
            s.written as int,
        ),
        ClientPhase::AwaitingAck => a matches ClientAction::ReadReply { wait_ms }
            && wait_ms == REPLY_WAIT_MS,
        ClientPhase::Succeeded => a matches ClientAction::Finish(r) && r == Ok::<(), Error>(()),
        ClientPhase::Failed(e) => a matches ClientAction::Finish(r) && r == Err::<(), Error>(e),
    }
}

/// The crashing process's side of the exchange: send one crash frame, then
/// wait briefly for the monitor's acknowledgement.
pub struct ClientSession {
    mode: AckMode,
    phase: ClientPhase,
    frame: Vec<u8>,
    written: usize,
    reply: Vec<u8>,
}

impl View for ClientSession {
    type V = ClientState;

    closed spec fn view(&self) -> ClientState {
        ClientState {
            mode: self.mode,
            phase: self.phase,
            frame: self.frame@,
            written: self.written as nat,
            reply: self.reply@,
        }
    }
}

impl ClientSession {
    /// Starts a session that sends `payload` as the body of a crash frame.
    pub fn new(mode: AckMode, payload: &[u8]) -> (s: ClientSession)
        ensures
            s@ == client_start(mode, payload@),
            s@.wf(),
    {
        let frame = encode_frame(MessageKind::Crash, payload);
        let phase = match mode {
            AckMode::Port => ClientPhase::Delivering,
            AckMode::Stream => ClientPhase::Writing,
        };
        ClientSession { mode, phase, frame, written: 0, reply: Vec::new() }
    }

    /// The action that the session calls for now.
    pub fn next_action(&self) -> (a: ClientAction)
        requires
            self@.wf(),
        ensures
            client_action(self@, a),
    {
        match self.phase {
            ClientPhase::Delivering => ClientAction::DeliverViaPort {
                send_timeout_ms: PORT_SEND_TIMEOUT_MS,
                ack_timeout_ms: PORT_ACK_TIMEOUT_MS,
            },
            ClientPhase::Writing => {
                let rest = copy_range(self.frame.as_slice(), self.written, self.frame.len());
                ClientAction::Write(rest)
            },
            ClientPhase::AwaitingAck => ClientAction::ReadReply { wait_ms: REPLY_WAIT_MS },
            ClientPhase::Succeeded => ClientAction::Finish(Ok(())),
            ClientPhase::Failed(e) => ClientAction::Finish(Err(e)),
        }
    }

    /// Moves the session on by what happened to its last action.
    pub fn on_event(&mut self, e: ClientEvent)
        requires
            old(self)@.wf(),
        ensures
            final(self)@ == client_next(old(self)@, e),
            final(self)@.wf(),
    {
        match self.phase {
            ClientPhase::Delivering => match e {
                ClientEvent::PortDelivered => self.phase = ClientPhase::Writing,
                ClientEvent::PortFailed => self.phase = ClientPhase::Failed(Error::Port),
                _ => {},
            },
            ClientPhase::Writing => match e {
                ClientEvent::Wrote(n) => {
                    let left = self.frame.len() - self.written;
                    if n == 0 || n > left {
                        self.phase = ClientPhase::Failed(Error::Transport(TransportOp::Write));
                    } else if n == left {
                        self.written = self.frame.len();
                        self.phase = match self.mode {
                            AckMode::Stream => ClientPhase::AwaitingAck,
                            AckMode::Port => ClientPhase::Succeeded,
                        };
                    } else {
                        self.written = self.written + n;
                    }
                },
                ClientEvent::WriteFailed => {
                    self.phase = ClientPhase::Failed(Error::Transport(TransportOp::Write));
                },
                _ => {},
            },
            ClientPhase::AwaitingAck => match e {
                ClientEvent::Received(chunk) => {
                    append_bytes(&mut self.reply, chunk.as_slice());
                    if self.reply.len() >= HEADER_SIZE {
                        let h = read_header(self.reply.as_slice());
                        self.phase = if h.kind == MessageKind::CrashAck && h.len == 0 {
                            ClientPhase::Succeeded
                        } else {
                            ClientPhase::Failed(Error::Protocol(ProtocolFault::UnexpectedReply))
                        };
                    }
                },
                ClientEvent::NoReply => {
                    let fault = if self.reply.len() == 0 {
                        ProtocolFault::MissingReply
                    } else {
                        ProtocolFault::TruncatedHeader
                    };
                    self.phase = ClientPhase::Failed(Error::Protocol(fault));
                },
                ClientEvent::ReadFailed => {
                    self.phase = ClientPhase::Failed(Error::Transport(TransportOp::Read));
                },
                _ => {},
            },
            _ => {},
        }
    }
}

/// The frame a monitor sends to acknowledge a crash.
pub open spec fn ack_frame() -> Seq<u8> {
    frame_image(MessageKind::CrashAck, Seq::empty())
}

/// The state a session reaches after the events `es`, in order.
pub open spec fn client_run(s: ClientState, es: Seq<ClientEvent>) -> ClientState
    decreases es.len(),
{
    if es.len() == 0 {
        s
    } else {
        client_run(client_next(s, es[0]), es.drop_first())
    }
}

/// `e` is a write that the channel took some bytes of.
pub open spec fn took_bytes(e: ClientEvent) -> bool {
    e matches ClientEvent::Wrote(n) && n > 0
}

/// Every event of `es` is a write that the channel took some bytes of.
pub open spec fn all_writes(es: Seq<ClientEvent>) -> bool {
    forall|i: int| 0 <= i < es.len() ==> took_bytes(#[trigger] es[i])
}

/// How many bytes the writes `es` took in all.
pub open spec fn written_total(es: Seq<ClientEvent>) -> int
    decreases es.len(),
{
    if es.len() == 0 {
        0
    } else {
        (if let ClientEvent::Wrote(n) = es[0] {
            n as int
        } else {
            0
        }) + written_total(es.drop_first())
    }
}

/// Every event of `es` is a read of reply bytes.
pub open spec fn all_replies(es: Seq<ClientEvent>) -> bool {
    forall|i: int| 0 <= i < es.len() ==> #[trigger] es[i] is Received
}

/// The reply bytes that the reads `es` brought, in order.
pub open spec fn reply_bytes(es: Seq<ClientEvent>) -> Seq<u8>
    decreases es.len(),
{
    if es.len() == 0 {
        Seq::empty()
    } else {
        (if let ClientEvent::Received(c) = es[0] {
            c@
        } else {
            Seq::empty()
        }) + reply_bytes(es.drop_first())
    }
}

proof fn lemma_written_total_positive(es: Seq<ClientEvent>)
    requires
        all_writes(es),
    ensures
        written_total(es) >= es.len(),
    decreases es.len(),
{
    if es.len() > 0 {
        assert(took_bytes(es[0]));
        assert forall|i: int| 0 <= i < es.drop_first().len() implies took_bytes(#[trigger] es.drop_first()[i]) by {
            assert(took_bytes(es[i + 1]));
        }
        lemma_written_total_positive(es.drop_first());
    }
}

/// However the channel splits the crash frame into writes, the session has
/// written it all once the writes add up to what was left.
pub proof fn lemma_writes_split(s: ClientState, es: Seq<ClientEvent>)
    requires
        s.phase is Writing,
        s.wf(),
        all_writes(es),
        s.written + written_total(es) == s.frame.len(),
    ensures
        client_run(s, es) == (ClientState {
            written: s.frame.len(),
            phase: if s.mode is Stream {
                ClientPhase::AwaitingAck
            } else {
                ClientPhase::Succeeded
            },
            ..s
        }),
    decreases es.len(),
{
    lemma_written_total_positive(es);
    let rest = es.drop_first();
    assert(took_bytes(es[0]));
    assert forall|i: int| 0 <= i < rest.len() implies took_bytes(#[trigger] rest[i]) by {
        assert(took_bytes(es[i + 1]));
    }
    lemma_written_total_positive(rest);
    let n = es[0]->Wrote_0;
    assert(written_total(es) == n + written_total(rest));
    let s1 = client_next(s, es[0]);
    assert(client_run(s, es) == client_run(s1, rest));
    if rest.len() > 0 {
        assert(s1 == ClientState { written: (s.written + n) as nat, ..s });
        lemma_writes_split(s1, rest);
    } else {
        assert(client_run(s1, rest) == s1);
    }
}

/// A finished session is left as it is by further reads.
proof fn lemma_replies_after_verdict(s: ClientState, es: Seq<ClientEvent>)
    requires
        all_replies(es),
        s.phase is Succeeded || s.phase is Failed,
    ensures
        client_run(s, es) == s,
    decreases es.len(),
{
    if es.len() > 0 {
        assert forall|i: int| 0 <= i < es.drop_first().len() implies #[trigger] es.drop_first()[i] is Received by {
            assert(es[i + 1] is Received);
        }
        lemma_replies_after_verdict(s, es.drop_first());
    }
}

/// However the reply is split into reads, the session judges its first
/// header as a whole once that header has arrived, and otherwise keeps what
/// has come and waits.
pub proof fn lemma_replies_split(s: ClientState, es: Seq<ClientEvent>)
    requires
        s.phase is AwaitingAck,
        s.wf(),
        all_replies(es),
    ensures
        (s.reply + reply_bytes(es)).len() >= HEADER_SIZE ==> client_run(s, es).phase
            == reply_verdict(s.reply + reply_bytes(es)),
        (s.reply + reply_bytes(es)).len() < HEADER_SIZE ==> client_run(s, es) == (ClientState {
            reply: s.reply + reply_bytes(es),
            ..s
        }),
    decreases es.len(),
{
    if es.len() == 0 {
        assert(s.reply + reply_bytes(es) == s.reply);
    } else {
        let c = es[0]->Received_0@;
        let rest = es.drop_first();
        assert forall|i: int| 0 <= i < rest.len() implies #[trigger] rest[i] is Received by {
            assert(es[i + 1] is Received);
        }
        let r1 = s.reply + c;
        assert(s.reply + reply_bytes(es) == r1 + reply_bytes(rest));
        let s1 = client_next(s, es[0]);
        if r1.len() < HEADER_SIZE {
            lemma_replies_split(s1, rest);
        } else {
            lemma_replies_after_verdict(s1, rest);
            crate::wire::lemma_frame_prefix_stable(r1, reply_bytes(rest));
        }
    }
}

/// Once a stream session has written its whole crash frame, in any number of
/// writes, the reply decides, in any number of reads: an acknowledgement
/// frame makes it succeed; a header of another kind makes it fail with a
/// protocol error, and so does no reply or a part of a header only.
pub proof fn lemma_ack_contract(
    payload: Seq<u8>,
    writes: Seq<ClientEvent>,
    replies: Seq<ClientEvent>,
)
    requires
        all_writes(writes),
        written_total(writes) == frame_image(MessageKind::Crash, payload).len(),
        all_replies(replies),
    ensures
        client_run(client_start(AckMode::Stream, payload), writes).phase is AwaitingAck,
        reply_bytes(replies) == ack_frame() ==> client_run(
            client_run(client_start(AckMode::Stream, payload), writes),
            replies,
        ).phase is Succeeded,
        reply_bytes(replies).len() >= HEADER_SIZE && parse_header(reply_bytes(replies)).kind
            != MessageKind::CrashAck ==> client_run(
            client_run(client_start(AckMode::Stream, payload), writes),
            replies,
        ).phase == ClientPhase::Failed(Error::Protocol(ProtocolFault::UnexpectedReply)),
        reply_bytes(replies).len() < HEADER_SIZE ==> client_next(
            client_run(client_run(client_start(AckMode::Stream, payload), writes), replies),
            ClientEvent::NoReply,
        ).phase == ClientPhase::Failed(
            Error::Protocol(
                if reply_bytes(replies).len() == 0 {
                    ProtocolFault::MissingReply
                } else {
                    ProtocolFault::TruncatedHeader
                },
            ),
        ),
{
    let h = MessageHeader { kind: MessageKind::CrashAck, len: 0 };
    lemma_header_round_trip(h, Seq::empty());
    assert(header_image(h) + Seq::<u8>::empty() == ack_frame());
    lemma_header_round_trip(
        MessageHeader { kind: MessageKind::Crash, len: payload.len() as u64 },
        payload,
    );
    let start = client_start(AckMode::Stream, payload);
    lemma_writes_split(start, writes);
    let s = client_run(start, writes);
    lemma_replies_split(s, replies);
    assert(s.reply + reply_bytes(replies) == reply_bytes(replies));
}

} // verus!
