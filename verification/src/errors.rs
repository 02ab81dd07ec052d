use vstd::prelude::*;

verus! {

/// The library's error taxonomy.
#[derive(Clone, Copy, Debug, PartialEq, Eq, Structural, Hash)]
pub enum Error {
    /// An OS-level failure of the underlying transport (socket, pipe or
    /// shared queue), including a receive from a queue whose feeding side is
    /// gone without having signalled end-of-stream.
    Transport,
    /// A decode failure: bytes that do not frame a well-formed message, or an
    /// unexpected handshake payload.
    Protocol,
    /// An operation attempted after explicit end-of-stream, such as sending
    /// on a stream that was already half-closed.
    Closed,
}

impl Error {
    /// A short stable description of the error category.
    pub fn describe(&self) -> (r: &'static str)
        ensures
            *self is Transport ==> r@ == "transport failure"@,
            *self is Protocol ==> r@ == "protocol violation"@,
            *self is Closed ==> r@ == "stream already closed"@,
    {
        match self {
            Error::Transport => "transport failure",
            Error::Protocol => "protocol violation",
            Error::Closed => "stream already closed",
        }
    }
}

} // verus!
