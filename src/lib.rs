//! Framing, payload codecs and session decisions for handing a crash context
//! from a crashing process to a monitor process over a local IPC channel.
//!
//! The library holds no sockets: the client and server sessions are state
//! machines that say which transport action comes next and how each transport
//! event moves the session on. The code that owns the transport runs the loop.
pub mod client;
pub mod endpoint;
pub mod error;
pub mod payload;
pub mod server;
pub mod wire;

pub use client::{AckMode, ClientAction, ClientEvent, ClientPhase, ClientSession};
pub use endpoint::{check_address, claim_address, cleanup_result, Removal, MAX_ADDRESS_LEN};
pub use error::{Error, ProtocolFault, TransportOp};
pub use payload::{decode_context, encode_context, pid_placeholder, DumpRequest, DUMP_REQUEST_SIZE};
pub use server::{ServerAction, ServerEvent, ServerPhase, ServerSession};
pub use wire::{decode_frame, encode_frame, Decoded, MessageHeader, MessageKind, HEADER_SIZE};
