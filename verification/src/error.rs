use vstd::prelude::*;

verus! {

/// Everything that can go wrong between building a request and
/// delivering its completed response.
#[derive(Clone, Copy, Debug, PartialEq, Eq, Structural)]
pub enum Error {
    /// The method, URI, or a header was rejected while building a request.
    RequestBuildError,
    /// The pool's configured transport cap was exceeded.
    TooManyConnections,
    /// The native transfer engine reported a failure; the engine's error
    /// code is passed through unchanged.
    TransferEngineError(u64),
    /// The response's status line or header section could not be decoded.
    MalformedResponse,
    /// The reactor thread is unreachable; the pending transfer is dead.
    ChannelFailure,
}

impl Error {
    /// A short human-readable description of the error kind.
    pub fn description(&self) -> (r: &'static str)
        ensures
            r@ == match self {
                Error::RequestBuildError => "invalid request"@,
                Error::TooManyConnections => "too many connections"@,
                Error::TransferEngineError(_) => "transfer engine error"@,
                Error::MalformedResponse => "malformed response"@,
                Error::ChannelFailure => "reactor unreachable"@,
            },
    {
        match self {
            Error::RequestBuildError => "invalid request",
            Error::TooManyConnections => "too many connections",
            Error::TransferEngineError(_) => "transfer engine error",
            Error::MalformedResponse => "malformed response",
            Error::ChannelFailure => "reactor unreachable",
        }
    }
}

} // verus!
