use vstd::bytes::{
    spec_u32_from_le_bytes, spec_u32_to_le_bytes, spec_u64_from_le_bytes, spec_u64_to_le_bytes,
    u32_from_le_bytes, u32_to_le_bytes, u64_from_le_bytes, u64_to_le_bytes,
};
use vstd::layout::size_of;
use vstd::prelude::*;

use crash_context::CrashContext;

use crate::error::Error;
use crate::wire::{append_bytes, copy_range};

verus! {

/// Bytes in an encoded `DumpRequest`: the image of the C layout of its
/// fields on a 64-bit target, trailing padding included.
pub const DUMP_REQUEST_SIZE: usize = 24;

/// The crash record sent by a process whose context lives in its own memory:
/// the monitor reads the exception details out of that process.
#[derive(Clone, Copy, Debug, PartialEq, Eq, Structural)]
pub struct DumpRequest {
    /// Address of the exception pointers in the crashing process. Only a
    /// reader of that process's memory may use it; it is never dereferenced here.
    pub exception_pointers: u64,
    /// Id of the crashing process.
    pub process_id: u32,
    /// Id of the thread in which the crash happened.
    pub thread_id: u32,
    /// The top-level exception code.
    pub exception_code: i32,
}

/// The bytes of an encoded `DumpRequest`, fields little-endian in order,
/// then four zero bytes of padding.
pub open spec fn dump_request_image(r: DumpRequest) -> Seq<u8> {
    spec_u64_to_le_bytes(r.exception_pointers) + spec_u32_to_le_bytes(r.process_id)
        + spec_u32_to_le_bytes(r.thread_id) + spec_u32_to_le_bytes(r.exception_code as u32)
        + seq![0u8, 0u8, 0u8, 0u8]
}

/// The `DumpRequest` whose fields the first 20 bytes of `b` hold.
pub open spec fn parse_dump_request(b: Seq<u8>) -> DumpRequest
    recommends
        b.len() == DUMP_REQUEST_SIZE,
{
    DumpRequest {
        exception_pointers: spec_u64_from_le_bytes(b.subrange(0, 8)),
        process_id: spec_u32_from_le_bytes(b.subrange(8, 12)),
        thread_id: spec_u32_from_le_bytes(b.subrange(12, 16)),
        exception_code: spec_u32_from_le_bytes(b.subrange(16, 20)) as i32,
    }
}

impl DumpRequest {
    /// Encodes the record as `DUMP_REQUEST_SIZE` bytes.
    pub fn as_bytes(&self) -> (r: Vec<u8>)
        ensures
            r@ == dump_request_image(*self),
            r@.len() == DUMP_REQUEST_SIZE,
    {
        proof {
            vstd::bytes::lemma_auto_spec_u64_to_from_le_bytes();
            vstd::bytes::lemma_auto_spec_u32_to_from_le_bytes();
        }
        let mut r = u64_to_le_bytes(self.exception_pointers);
        let pid = u32_to_le_bytes(self.process_id);
        append_bytes(&mut r, pid.as_slice());
        let tid = u32_to_le_bytes(self.thread_id);
        append_bytes(&mut r, tid.as_slice());
        let code = u32_to_le_bytes(self.exception_code as u32);
        append_bytes(&mut r, code.as_slice());
        let padding: [u8; 4] = [0u8; 4];
        append_bytes(&mut r, padding.as_slice());
        assert(padding@ == seq![0u8, 0u8, 0u8, 0u8]);
        r
    }

    /// Decodes a record. Anything but exactly `DUMP_REQUEST_SIZE` bytes is
    /// refused, so that no other data is ever taken for an address.
    pub fn from_bytes(b: &[u8]) -> (r: Option<DumpRequest>)
        ensures
            b@.len() == DUMP_REQUEST_SIZE ==> r == Some(parse_dump_request(b@)),
            b@.len() != DUMP_REQUEST_SIZE ==> r is None,
    {
        if b.len() != DUMP_REQUEST_SIZE {
            return None;
        }
        let exception_pointers = u64_from_le_bytes(vstd::slice::slice_subrange(b, 0, 8));
        let process_id = u32_from_le_bytes(vstd::slice::slice_subrange(b, 8, 12));
        let thread_id = u32_from_le_bytes(vstd::slice::slice_subrange(b, 12, 16));
        let code = u32_from_le_bytes(vstd::slice::slice_subrange(b, 16, 20));
        Some(DumpRequest { exception_pointers, process_id, thread_id, exception_code: code as i32 })
    }
}

/// Every `DumpRequest` decodes back from its own encoding.
pub proof fn lemma_dump_request_round_trip(r: DumpRequest)
    ensures
        dump_request_image(r).len() == DUMP_REQUEST_SIZE,
        parse_dump_request(dump_request_image(r)) == r,
{
    vstd::bytes::lemma_auto_spec_u64_to_from_le_bytes();
    vstd::bytes::lemma_auto_spec_u32_to_from_le_bytes();
    let b = dump_request_image(r);
    let code = r.exception_code;
    assert(b.subrange(0, 8) == spec_u64_to_le_bytes(r.exception_pointers));
    assert(b.subrange(8, 12) == spec_u32_to_le_bytes(r.process_id));
    assert(b.subrange(12, 16) == spec_u32_to_le_bytes(r.thread_id));
    assert(b.subrange(16, 20) == spec_u32_to_le_bytes(code as u32));
    assert((code as u32) as i32 == code) by (bit_vector);
}

/// The stand-in payload sent on the stream when the crash context itself
/// travels over the side-channel port: the sender's process id.
pub fn pid_placeholder(pid: u32) -> (r: Vec<u8>)
    ensures
        r@ == spec_u32_to_le_bytes(pid),
        r@.len() == 4,
{
    u32_to_le_bytes(pid)
}

#[verifier::external_type_specification]
#[verifier::external_body]
pub struct ExCrashContext(CrashContext);

/// The crash context that a record's bytes hold, as
/// `CrashContext::from_bytes` reads it: an unaligned copy of exactly those bytes.
pub uninterp spec fn context_of(bytes: Seq<u8>) -> CrashContext;

/// Relies on crash_context::CrashContext::from_bytes: it returns a context
/// exactly when the buffer has the size of the record, which is not empty,
/// and that context is read from the buffer's bytes alone.
pub assume_specification[ CrashContext::from_bytes ](bytes: &[u8]) -> (r: Option<CrashContext>)
    ensures
        r is Some <==> bytes@.len() == size_of::<CrashContext>(),
        r is Some ==> bytes@.len() > 0,
        r is Some ==> r == Some(context_of(bytes@)),
;

/// Relies on crash_context::CrashContext::as_bytes: it views the record as
/// its `size_of_val(self)` bytes of memory, a non-empty image that reads
/// back as the same context.
pub assume_specification[ CrashContext::as_bytes ](ctx: &CrashContext) -> (r: &[u8])
    ensures
        r@.len() == size_of::<CrashContext>(),
        r@.len() > 0,
        context_of(r@) == *ctx,
;

/// Encodes a crash context as the body of a crash message: the bytes of the
/// record, which decode back to `ctx`.
pub fn encode_context(ctx: &CrashContext) -> (r: Vec<u8>)
    ensures
        r@.len() == size_of::<CrashContext>(),
        r@.len() > 0,
        context_of(r@) == *ctx,
{
    let b = ctx.as_bytes();
    assert(b@.subrange(0, b@.len() as int) == b@);
    copy_range(b, 0, b.len())
}

/// `r` is what decoding `body` gives: the context it holds when it has the
/// record's size, a payload error otherwise.
pub open spec fn decodes_context(body: Seq<u8>, r: Result<CrashContext, Error>) -> bool {
    if body.len() == size_of::<CrashContext>() {
        r == Ok::<CrashContext, Error>(context_of(body))
    } else {
        r == Err::<CrashContext, Error>(Error::Payload)
    }
}

/// Decodes the body of a crash message into the crash context it holds. A
/// body of any other size than the record's, an empty one included, is a
/// payload error.
pub fn decode_context(body: &[u8]) -> (r: Result<CrashContext, Error>)
    ensures
        decodes_context(body@, r),
        body@.len() == 0 ==> r is Err,
{
    match CrashContext::from_bytes(body) {
        Some(ctx) => Ok(ctx),
        None => Err(Error::Payload),
    }
}

/// Decoding the encoding of a context gives that context back.
pub proof fn lemma_context_round_trip(
    ctx: CrashContext,
    bytes: Seq<u8>,
    r: Result<CrashContext, Error>,
)
    requires
        bytes.len() == size_of::<CrashContext>(),
        context_of(bytes) == ctx,
        decodes_context(bytes, r),
    ensures
        r == Ok::<CrashContext, Error>(ctx),
{
}

} // verus!
