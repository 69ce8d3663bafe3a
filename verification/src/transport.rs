//! What the QUIC socket answers when something is not as it should be.

use vstd::prelude::*;

verus! {

/// Where the work of a socket stopped.
#[derive(Debug, Clone, Copy, PartialEq, Eq, Structural)]
pub enum SocketFailure {
    /// The address could not be bound.
    Bind,
    /// The given socket could not be taken over.
    FromStd,
    /// The socket taken over does not tell its address.
    LocalAddress,
    /// The socket is not bound.
    NotBound,
    /// The connection could not be set up.
    Handshake,
}

/// The classes of failures that callers tell apart.
#[derive(Debug, Clone, Copy, PartialEq, Eq, Structural)]
pub enum FailureKind {
    InvalidInput,
    NotFound,
    ConnectionAborted,
    ConnectionRefused,
}

impl SocketFailure {
    /// The class of the failure.
    pub fn kind(self) -> (r: FailureKind)
        ensures
            r == (match self {
                SocketFailure::Bind => FailureKind::InvalidInput,
                SocketFailure::FromStd => FailureKind::InvalidInput,
                SocketFailure::LocalAddress => FailureKind::NotFound,
                SocketFailure::NotBound => FailureKind::ConnectionAborted,
                SocketFailure::Handshake => FailureKind::ConnectionRefused,
            }),
    {
        match self {
            SocketFailure::Bind | SocketFailure::FromStd => FailureKind::InvalidInput,
            SocketFailure::LocalAddress => FailureKind::NotFound,
            SocketFailure::NotBound => FailureKind::ConnectionAborted,
            SocketFailure::Handshake => FailureKind::ConnectionRefused,
        }
    }

    /// The failure in words.
    pub fn message(self) -> (r: &'static str)
        ensures
            r@ == (match self {
                SocketFailure::Bind => "could not resolve to any address"@,
                SocketFailure::FromStd => "could not resolve from std socket"@,
                SocketFailure::LocalAddress => "could not resolve to local address"@,
                SocketFailure::NotBound => "underlying socket not bound"@,
                SocketFailure::Handshake => "could not connect"@,
            }),
    {
        match self {
            SocketFailure::Bind => "could not resolve to any address",
            SocketFailure::FromStd => "could not resolve from std socket",
            SocketFailure::LocalAddress => "could not resolve to local address",
            SocketFailure::NotBound => "underlying socket not bound",
            SocketFailure::Handshake => "could not connect",
        }
    }
}

/// What a step gives, or the failure that stands for it where it fails. Why
/// it fails is not passed on.
pub fn step<T, E>(done: Result<T, E>, at: SocketFailure) -> (r: Result<T, SocketFailure>)
    ensures
        match done {
            Ok(t) => r is Ok && r->Ok_0 == t,
            Err(_) => r is Err && r->Err_0 == at,
        },
{
    match done {
        Ok(t) => Ok(t),
        Err(_) => Err(at),
    }
}

/// A connection is set up only on a bound socket.
pub fn check_bound(bound: bool) -> (r: Result<(), SocketFailure>)
    ensures
        r is Ok <==> bound,
        r matches Err(e) ==> e == SocketFailure::NotBound,
{
    if bound {
        Ok(())
    } else {
        Err(SocketFailure::NotBound)
    }
}

} // verus!
