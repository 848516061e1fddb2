use vstd::prelude::*;

verus! {

/// The transport failure kinds the connection layer distinguishes, as plain
/// values; the I/O layer converts its own error codes into these before
/// anything here reads them.
#[derive(Clone, Copy, Debug, PartialEq, Eq, Structural)]
pub enum TransportErrorKind {
    ConnectionReset,
    ConnectionAborted,
    BrokenPipe,
    UnexpectedEof,
    TimedOut,
    WouldBlock,
    Other,
}

/// The three outcomes higher layers are allowed to see: the four canonical
/// terminated-connection conditions collapse into one recoverable event, an
/// expired deadline into another, and anything else is a genuine failure.
#[derive(Clone, Copy, Debug, PartialEq, Eq, Structural)]
pub enum TransportOutcome {
    /// The remote end closed the channel: a valid protocol outcome.
    ConnectionTerminated,
    /// A read deadline expired: expected, and distinct from termination.
    Timeout,
    /// Anything else: fatal to the test case, never silently swallowed.
    Unexpected,
}

/// The single classification every transport error goes through, so that no
/// higher layer ever matches on raw platform codes.
pub open spec fn spec_classify(k: TransportErrorKind) -> TransportOutcome {
    match k {
        TransportErrorKind::ConnectionReset => TransportOutcome::ConnectionTerminated,
        TransportErrorKind::ConnectionAborted => TransportOutcome::ConnectionTerminated,
        TransportErrorKind::BrokenPipe => TransportOutcome::ConnectionTerminated,
        TransportErrorKind::UnexpectedEof => TransportOutcome::ConnectionTerminated,
        TransportErrorKind::TimedOut => TransportOutcome::Timeout,
        TransportErrorKind::WouldBlock => TransportOutcome::Timeout,
        TransportErrorKind::Other => TransportOutcome::Unexpected,
    }
}

pub fn classify_transport_error(k: TransportErrorKind) -> (r: TransportOutcome)
    ensures
        r == spec_classify(k),
{
    match k {
        TransportErrorKind::ConnectionReset => TransportOutcome::ConnectionTerminated,
        TransportErrorKind::ConnectionAborted => TransportOutcome::ConnectionTerminated,
        TransportErrorKind::BrokenPipe => TransportOutcome::ConnectionTerminated,
        TransportErrorKind::UnexpectedEof => TransportOutcome::ConnectionTerminated,
        TransportErrorKind::TimedOut => TransportOutcome::Timeout,
        TransportErrorKind::WouldBlock => TransportOutcome::Timeout,
        TransportErrorKind::Other => TransportOutcome::Unexpected,
    }
}

/// True exactly for the error kinds that mean the remote end terminated the
/// connection.
pub fn is_termination_error(k: TransportErrorKind) -> (r: bool)
    ensures
        r == (spec_classify(k) == TransportOutcome::ConnectionTerminated),
{
    matches!(
        k,
        TransportErrorKind::ConnectionReset | TransportErrorKind::ConnectionAborted
            | TransportErrorKind::BrokenPipe | TransportErrorKind::UnexpectedEof
    )
}

} // verus!
