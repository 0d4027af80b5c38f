//! The failure and signal kinds shared by the HTTP/1 and HTTP/2 paths.

use vstd::prelude::*;

verus! {

/// Who initiated a connection shutdown.
#[derive(Clone, Copy, Debug, PartialEq, Eq, Structural)]
pub enum Initiator {
    User,
    Library,
    Remote,
}

/// The unified error kind. `UpgradeHttp2` and `GoAway` are signals rather
/// than faults: the first asks the caller to hand the connection over to the
/// HTTP/2 side, the second closes it after the held bytes are flushed.
pub enum ProtError {
    /// a transport fault, with its message
    IoError(String),
    /// the parser rejected the inbound bytes, with its message
    WebError(String),
    /// any other failure, with a fixed message
    Extension(String),
    /// switch this connection to HTTP/2: bytes still to write back, and the
    /// request that was pending when the switch was decided, if any
    UpgradeHttp2(Vec<u8>, Option<Box<crate::message::RecvRequest>>),
    /// terminal shutdown: debug bytes, reason code, initiator
    GoAway(Vec<u8>, u32, Initiator),
}

impl ProtError {
    /// A `GoAway` raised by this library itself, with no debug payload.
    pub fn library_go_away(reason: u32) -> (r: ProtError)
        ensures
            r matches ProtError::GoAway(bytes, code, who)
                && bytes@ == Seq::<u8>::empty()
                && code == reason
                && who == Initiator::Library,
    {
        ProtError::GoAway(Vec::new(), reason, Initiator::Library)
    }
}

} // verus!
