use vstd::prelude::*;
use vstd::utf8::valid_utf8;

use crate::error::{Error, TransportOp};

verus! {

/// Longest endpoint address, in bytes. A Unix socket path holds 108 bytes
/// with its terminating NUL and a port name 128, so this bound serves both.
pub const MAX_ADDRESS_LEN: usize = 107;

/// An address that every transport can name: not empty, not too long,
/// valid UTF-8 and free of NUL bytes.
pub open spec fn address_ok(a: Seq<u8>) -> bool {
    &&& 0 < a.len() <= MAX_ADDRESS_LEN
    &&& valid_utf8(a)
    &&& forall|i: int| 0 <= i < a.len() ==> a[i] != 0
}

/// Relies on std::str::from_utf8: it succeeds exactly on valid UTF-8.
#[verifier::external_body]
fn is_utf8(b: &[u8]) -> (r: bool)
    ensures
        r == valid_utf8(b@),
{
    std::str::from_utf8(b).is_ok()
}

/// Checks an endpoint address before it is bound or connected to.
pub fn check_address(addr: &[u8]) -> (r: Result<(), Error>)
    ensures
        r is Ok <==> address_ok(addr@),
        r matches Err(e) ==> e == Error::InvalidAddress,
{
    if addr.len() == 0 || addr.len() > MAX_ADDRESS_LEN || !is_utf8(addr) {
        return Err(Error::InvalidAddress);
    }
    let mut i: usize = 0;
    while i < addr.len()
        invariant
            i <= addr@.len(),
            0 < addr@.len() <= MAX_ADDRESS_LEN,
            valid_utf8(addr@),
            forall|j: int| 0 <= j < i ==> addr@[j] != 0,
        decreases addr@.len() - i,
    {
        if addr[i] == 0 {
            return Err(Error::InvalidAddress);
        }
        i = i + 1;
    }
    Ok(())
}

/// Whether a server may take an address: an artifact that a live listener
/// still answers on is in use, while one that nothing answers on is stale
/// and may be removed.
pub fn claim_address(listener_answered: bool) -> (r: Result<(), Error>)
    ensures
        r == if listener_answered {
            Err::<(), Error>(Error::Transport(TransportOp::Bind))
        } else {
            Ok::<(), Error>(())
        },
{
    if listener_answered {
        Err(Error::Transport(TransportOp::Bind))
    } else {
        Ok(())
    }
}

/// What removing an endpoint's artifact came to.
#[derive(Clone, Copy, Debug, PartialEq, Eq, Structural)]
pub enum Removal {
    Removed,
    /// There was nothing to remove.
    Absent,
    Failed,
}

/// The result of removing an endpoint's artifact. An artifact that is
/// already gone, or was never made, is no error, so removal can be repeated.
pub fn cleanup_result(r: Removal) -> (res: Result<(), Error>)
    ensures
        res == match r {
            Removal::Failed => Err::<(), Error>(Error::Transport(TransportOp::Cleanup)),
            _ => Ok::<(), Error>(()),
        },
{
    match r {
        Removal::Failed => Err(Error::Transport(TransportOp::Cleanup)),
        _ => Ok(()),
    }
}

} // verus!
