use vstd::bytes::{spec_u64_from_le_bytes, spec_u64_to_le_bytes, u64_from_le_bytes, u64_to_le_bytes};
use vstd::prelude::*;

use crate::error::ProtocolFault;

verus! {

/// Bytes in an encoded header: one kind tag, then the body length as a
/// little-endian `u64`.
pub const HEADER_SIZE: usize = 9;

/// What a framed message is. Tags other than those of `Crash` and `CrashAck`
/// are carried as `Other` so that a reader can skip messages it does not know.
#[derive(Clone, Copy, Debug, PartialEq, Eq, Structural)]
pub enum MessageKind {
    Crash,
    CrashAck,
    Other(u8),
}

impl MessageKind {
    /// `Other` never holds a tag that a named kind uses.
    pub open spec fn is_valid(self) -> bool {
        self matches MessageKind::Other(t) ==> t >= 2
    }

    pub open spec fn spec_tag(self) -> u8 {
        match self {
            MessageKind::Crash => 0,
            MessageKind::CrashAck => 1,
            MessageKind::Other(t) => t,
        }
    }

    pub open spec fn spec_from_tag(t: u8) -> MessageKind {
        if t == 0 {
            MessageKind::Crash
        } else if t == 1 {
            MessageKind::CrashAck
        } else {
            MessageKind::Other(t)
        }
    }

    pub fn tag(&self) -> (t: u8)
        ensures
            t == self.spec_tag(),
    {
        match self {
            MessageKind::Crash => 0,
            MessageKind::CrashAck => 1,
            MessageKind::Other(t) => *t,
        }
    }

    pub fn from_tag(t: u8) -> (k: MessageKind)
        ensures
            k == MessageKind::spec_from_tag(t),
            k.is_valid(),
    {
        if t == 0 {
            MessageKind::Crash
        } else if t == 1 {
            MessageKind::CrashAck
        } else {
            MessageKind::Other(t)
        }
    }
}

/// The fixed-size prefix of every frame.
#[derive(Clone, Copy, Debug, PartialEq, Eq, Structural)]
pub struct MessageHeader {
    pub kind: MessageKind,
    /// Length of the body that follows, in bytes.
    pub len: u64,
}

/// The bytes of an encoded header.
pub open spec fn header_image(h: MessageHeader) -> Seq<u8> {
    seq![h.kind.spec_tag()] + spec_u64_to_le_bytes(h.len)
}

/// The header that the first `HEADER_SIZE` bytes of `b` encode.
pub open spec fn parse_header(b: Seq<u8>) -> MessageHeader
    recommends
        b.len() >= HEADER_SIZE,
{
    MessageHeader {
        kind: MessageKind::spec_from_tag(b[0]),
        len: spec_u64_from_le_bytes(b.subrange(1, HEADER_SIZE as int)),
    }
}

/// The bytes of a whole frame: header, then body.
pub open spec fn frame_image(kind: MessageKind, body: Seq<u8>) -> Seq<u8> {
    header_image(MessageHeader { kind, len: body.len() as u64 }) + body
}

/// `b` starts with a whole frame: a header and all the body it declares.
pub open spec fn holds_frame(b: Seq<u8>) -> bool {
    b.len() >= HEADER_SIZE && HEADER_SIZE + parse_header(b).len <= b.len()
}

/// Length of the frame at the start of `b`.
pub open spec fn frame_len(b: Seq<u8>) -> int {
    HEADER_SIZE + parse_header(b).len
}

/// Body of the frame at the start of `b`.
pub open spec fn frame_body(b: Seq<u8>) -> Seq<u8> {
    b.subrange(HEADER_SIZE as int, frame_len(b))
}

/// What reading the start of a buffer gives.
#[derive(Debug)]
pub enum Decoded {
    /// A whole frame, which took `used` bytes of the buffer.
    Complete { kind: MessageKind, body: Vec<u8>, used: usize },
    /// The frame is not all there yet and the channel is still open.
    Pending,
    /// The channel closed between frames.
    Closed,
    /// The channel closed in the middle of a frame.
    Failed(ProtocolFault),
}

/// `r` is what the bytes `buf` give, given whether the channel has closed.
pub open spec fn decodes_to(buf: Seq<u8>, closed: bool, r: Decoded) -> bool {
    if holds_frame(buf) {
        r matches Decoded::Complete { kind, body, used } && kind == parse_header(buf).kind
            && body@ == frame_body(buf) && used == frame_len(buf)
    } else if !closed {
        r is Pending
    } else if buf.len() == 0 {
        r is Closed
    } else if buf.len() < HEADER_SIZE {
        r matches Decoded::Failed(f) && f == ProtocolFault::TruncatedHeader
    } else {
        r matches Decoded::Failed(f) && f == ProtocolFault::TruncatedBody
    }
}

/// Appends `src` to `dst`.
pub(crate) fn append_bytes(dst: &mut Vec<u8>, src: &[u8])
    ensures
        final(dst)@ == old(dst)@ + src@,
{
    let mut i: usize = 0;
    while i < src.len()
        invariant
            i <= src@.len(),
            dst@ == old(dst)@ + src@.subrange(0, i as int),
        decreases src@.len() - i,
    {
        dst.push(src[i]);
        i = i + 1;
        assert(src@.subrange(0, i as int) == src@.subrange(0, i - 1) + seq![src@[i - 1]]);
    }
    assert(src@.subrange(0, src@.len() as int) == src@);
}

/// Copies `src[start..end]` into a new vector.
pub(crate) fn copy_range(src: &[u8], start: usize, end: usize) -> (r: Vec<u8>)
    requires
        start <= end <= src@.len(),
    ensures
        r@ == src@.subrange(start as int, end as int),
{
    let mut r: Vec<u8> = Vec::new();
    let mut i: usize = start;
    while i < end
        invariant
            start <= i <= end <= src@.len(),
            r@ == src@.subrange(start as int, i as int),
        decreases end - i,
    {
        r.push(src[i]);
        i = i + 1;
        assert(src@.subrange(start as int, i as int) == src@.subrange(start as int, i - 1)
            + seq![src@[i - 1]]);
    }
    r
}

impl MessageHeader {
    /// Encodes the header as `HEADER_SIZE` bytes.
    pub fn as_bytes(&self) -> (r: Vec<u8>)
        ensures
            r@ == header_image(*self),
            r@.len() == HEADER_SIZE,
    {
        let mut r: Vec<u8> = Vec::new();
        r.push(self.kind.tag());
        let len_bytes = u64_to_le_bytes(self.len);
        append_bytes(&mut r, len_bytes.as_slice());
        r
    }

    /// Reads a header from exactly `HEADER_SIZE` bytes.
    pub fn from_bytes(b: &[u8]) -> (r: Option<MessageHeader>)
        ensures
            b@.len() == HEADER_SIZE ==> r == Some(parse_header(b@)),
            b@.len() != HEADER_SIZE ==> r is None,
    {
        if b.len() != HEADER_SIZE {
            return None;
        }
        Some(read_header(b))
    }
}

/// Reads the header at the start of `b`.
pub(crate) fn read_header(b: &[u8]) -> (h: MessageHeader)
    requires
        b@.len() >= HEADER_SIZE,
    ensures
        h == parse_header(b@),
{
    let kind = MessageKind::from_tag(b[0]);
    let len_bytes = vstd::slice::slice_subrange(b, 1, HEADER_SIZE);
    let len = u64_from_le_bytes(len_bytes);
    MessageHeader { kind, len }
}

/// Encodes one frame: the header for `kind` and `body.len()`, then `body`.
pub fn encode_frame(kind: MessageKind, body: &[u8]) -> (r: Vec<u8>)
    ensures
        r@ == frame_image(kind, body@),
{
    let header = MessageHeader { kind, len: body.len() as u64 };
    let mut r = header.as_bytes();
    append_bytes(&mut r, body);
    r
}

/// Reads the frame at the start of `buf`. `closed` says that the channel
/// will bring no more bytes: a partial frame is then an error rather than
/// something to wait on.
pub fn decode_frame(buf: &[u8], closed: bool) -> (r: Decoded)
    ensures
        decodes_to(buf@, closed, r),
{
    if buf.len() >= HEADER_SIZE {
        let h = read_header(buf);
        let avail = (buf.len() - HEADER_SIZE) as u64;
        if h.len <= avail {
            let end = HEADER_SIZE + h.len as usize;
            let body = copy_range(buf, HEADER_SIZE, end);
            return Decoded::Complete { kind: h.kind, body, used: end };
        }
    }
    if !closed {
        Decoded::Pending
    } else if buf.len() == 0 {
        Decoded::Closed
    } else if buf.len() < HEADER_SIZE {
        Decoded::Failed(ProtocolFault::TruncatedHeader)
    } else {
        Decoded::Failed(ProtocolFault::TruncatedBody)
    }
}

/// A header reads back as the header it was encoded from, whatever follows it.
pub proof fn lemma_header_round_trip(h: MessageHeader, rest: Seq<u8>)
    requires
        h.kind.is_valid(),
    ensures
        (header_image(h) + rest).len() == HEADER_SIZE + rest.len(),
        parse_header(header_image(h) + rest) == h,
{
    vstd::bytes::lemma_auto_spec_u64_to_from_le_bytes();
    let b = header_image(h) + rest;
    assert(b.subrange(1, HEADER_SIZE as int) == spec_u64_to_le_bytes(h.len));
}

/// Encoding a frame and decoding the result gives back its kind and body,
/// whatever bytes follow it and whether or not the channel has closed.
pub proof fn lemma_frame_round_trip(
    kind: MessageKind,
    body: Seq<u8>,
    rest: Seq<u8>,
    closed: bool,
    r: Decoded,
)
    requires
        kind.is_valid(),
        body.len() <= u64::MAX,
        decodes_to(frame_image(kind, body) + rest, closed, r),
    ensures
        r matches Decoded::Complete { kind: k, body: b, used } && k == kind && b@ == body && used
            == frame_image(kind, body).len(),
{
    let h = MessageHeader { kind, len: body.len() as u64 };
    let buf = frame_image(kind, body) + rest;
    lemma_header_round_trip(h, body + rest);
    assert(buf == header_image(h) + (body + rest));
    assert(frame_body(buf) == body);
}

/// A channel that closes after fewer bytes than a header gives no message:
/// nothing at all is a clean end, a part of a header is a protocol error.
pub proof fn lemma_truncated_header(kind: MessageKind, body: Seq<u8>, n: int, r: Decoded)
    requires
        0 <= n < HEADER_SIZE,
        decodes_to(frame_image(kind, body).take(n), true, r),
    ensures
        n == 0 ==> r is Closed,
        n > 0 ==> (r matches Decoded::Failed(f) && f == ProtocolFault::TruncatedHeader),
{
    vstd::bytes::lemma_auto_spec_u64_to_from_le_bytes();
}

/// A frame cut short inside its body is never read as a message: while the
/// channel is open the reader waits, and once it has closed it is an error.
pub proof fn lemma_truncated_body(
    kind: MessageKind,
    body: Seq<u8>,
    n: int,
    closed: bool,
    r: Decoded,
)
    requires
        kind.is_valid(),
        body.len() <= u64::MAX,
        HEADER_SIZE <= n < frame_image(kind, body).len(),
        decodes_to(frame_image(kind, body).take(n), closed, r),
    ensures
        !closed ==> r is Pending,
        closed ==> (r matches Decoded::Failed(f) && f == ProtocolFault::TruncatedBody),
{
    let h = MessageHeader { kind, len: body.len() as u64 };
    let cut = frame_image(kind, body).take(n);
    lemma_header_round_trip(h, body.take(n - HEADER_SIZE));
    assert(cut == header_image(h) + body.take(n - HEADER_SIZE));
}

/// What the header and the frame at the start of `x` are does not change when
/// more bytes arrive after `x`.
pub proof fn lemma_frame_prefix_stable(x: Seq<u8>, y: Seq<u8>)
    ensures
        x.len() >= HEADER_SIZE ==> parse_header(x + y) == parse_header(x),
        holds_frame(x) ==> {
            &&& holds_frame(x + y)
            &&& frame_len(x + y) == frame_len(x)
            &&& frame_body(x + y) == frame_body(x)
            &&& (x + y).skip(frame_len(x)) == x.skip(frame_len(x)) + y
        },
{
    if x.len() >= HEADER_SIZE {
        assert((x + y).subrange(1, HEADER_SIZE as int) == x.subrange(1, HEADER_SIZE as int));
        assert((x + y)[0] == x[0]);
    }
    if holds_frame(x) {
        assert(frame_body(x + y) == frame_body(x));
        assert((x + y).skip(frame_len(x)) == x.skip(frame_len(x)) + y);
    }
}

} // verus!
