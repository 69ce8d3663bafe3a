//! What can go wrong in a session.

use vstd::prelude::*;
use vstd::std_specs::convert::FromSpecImpl;

use crate::packet::ConnectReturnCode;

verus! {

/// The I/O error of the standard library.
#[verifier::external_type_specification]
#[verifier::external_body]
pub struct ExIoError(std::io::Error);

/// A packet that could not be put into bytes or read from them.
#[derive(Debug)]
pub enum PacketError {
    /// The length of the packet does not fit in the bytes that tell it.
    PayloadTooLong,
    /// What the codec said of bytes that are no packet.
    Codec(mqttbytes::Error),
}

/// Errors during state handling.
#[derive(Debug)]
pub enum StateError {
    /// I/O error while state is passed to the network.
    Io(std::io::Error),
    /// The broker's error reply to the client's connect packet.
    Connect(ConnectReturnCode),
    /// Invalid state for a given operation.
    InvalidState,
    /// Received a packet (ack) which isn't asked for.
    Unsolicited(u16),
    /// The last ping request isn't acked.
    AwaitPingResp,
    /// Received a wrong packet while waiting for another packet.
    WrongPacket,
    /// Timeout while waiting to resolve a collision.
    CollisionTimeout,
    /// A packet could not be serialized or deserialized.
    Deserialization(PacketError),
}

impl From<std::io::Error> for StateError {
    fn from(e: std::io::Error) -> (r: StateError) {
        StateError::Io(e)
    }
}

impl FromSpecImpl<std::io::Error> for StateError {
    open spec fn obeys_from_spec() -> bool {
        true
    }

    open spec fn from_spec(e: std::io::Error) -> StateError {
        StateError::Io(e)
    }
}

impl From<mqttbytes::Error> for StateError {
    fn from(e: mqttbytes::Error) -> (r: StateError) {
        StateError::Deserialization(PacketError::Codec(e))
    }
}

impl FromSpecImpl<mqttbytes::Error> for StateError {
    open spec fn obeys_from_spec() -> bool {
        true
    }

    open spec fn from_spec(e: mqttbytes::Error) -> StateError {
        StateError::Deserialization(PacketError::Codec(e))
    }
}

impl From<PacketError> for StateError {
    fn from(e: PacketError) -> (r: StateError) {
        StateError::Deserialization(e)
    }
}

impl FromSpecImpl<PacketError> for StateError {
    open spec fn obeys_from_spec() -> bool {
        true
    }

    open spec fn from_spec(e: PacketError) -> StateError {
        StateError::Deserialization(e)
    }
}

} // verus!
