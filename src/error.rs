use vstd::prelude::*;

verus! {

/// The transport step that failed.
#[derive(Clone, Copy, Debug, PartialEq, Eq, Structural)]
pub enum TransportOp {
    Bind,
    Connect,
    Accept,
    Read,
    Write,
    Cleanup,
}

/// How a well-transported exchange broke the protocol.
#[derive(Clone, Copy, Debug, PartialEq, Eq, Structural)]
pub enum ProtocolFault {
    /// The peer closed after sending part of a header.
    TruncatedHeader,
    /// The peer closed before sending the whole body that the header declared.
    TruncatedBody,
    /// No reply came to a crash message.
    MissingReply,
    /// The reply to a crash message was not an acknowledgement.
    UnexpectedReply,
}

#[derive(Clone, Copy, Debug, PartialEq, Eq, Structural)]
pub enum Error {
    /// The endpoint address is empty, too long, or holds a NUL byte.
    InvalidAddress,
    /// The underlying channel failed.
    Transport(TransportOp),
    /// The bytes on the channel do not follow the protocol.
    Protocol(ProtocolFault),
    /// A crash payload does not have the size of its record.
    Payload,
    /// The side-channel port failed to deliver or acknowledge.
    Port,
}

} // verus!
