//! The packets of MQTT 3.1.1 as plain values, and the requests and
//! notifications that a client exchanges with its session.

use vstd::prelude::*;

verus! {

/// How hard the two ends try to get a publish across.
#[derive(Debug, Clone, Copy, PartialEq, Eq, Structural)]
pub enum QoS {
    AtMostOnce,
    AtLeastOnce,
    ExactlyOnce,
}

impl QoS {
    /// The two bits that stand for this level in a packet.
    pub open spec fn bits(self) -> int {
        match self {
            QoS::AtMostOnce => 0,
            QoS::AtLeastOnce => 1,
            QoS::ExactlyOnce => 2,
        }
    }
}

/// A message for a topic. A `pkid` of 0 means that no packet id is assigned yet.
#[derive(Debug, Clone, PartialEq, Eq)]
pub struct Publish {
    pub dup: bool,
    pub qos: QoS,
    pub retain: bool,
    pub topic: String,
    pub pkid: u16,
    pub payload: Vec<u8>,
}

/// Acknowledgement of a QoS 1 publish.
#[derive(Debug, Clone, Copy, PartialEq, Eq, Structural)]
pub struct PubAck {
    pub pkid: u16,
}

/// First reply to a QoS 2 publish.
#[derive(Debug, Clone, Copy, PartialEq, Eq, Structural)]
pub struct PubRec {
    pub pkid: u16,
}

/// Release of a QoS 2 publish, in reply to `PubRec`.
#[derive(Debug, Clone, Copy, PartialEq, Eq, Structural)]
pub struct PubRel {
    pub pkid: u16,
}

/// End of a QoS 2 exchange, in reply to `PubRel`.
#[derive(Debug, Clone, Copy, PartialEq, Eq, Structural)]
pub struct PubComp {
    pub pkid: u16,
}

/// One topic filter of a subscription and the highest level wanted for it.
#[derive(Debug, Clone, PartialEq, Eq)]
pub struct SubscribeFilter {
    pub path: String,
    pub qos: QoS,
}

/// Request to receive what matches any of the filters.
#[derive(Debug, Clone, PartialEq, Eq)]
pub struct Subscribe {
    pub pkid: u16,
    pub filters: Vec<SubscribeFilter>,
}

/// The broker's answer to one filter of a subscription.
#[derive(Debug, Clone, Copy, PartialEq, Eq)]
pub enum SubscribeReasonCode {
    Success(QoS),
    Failure,
}

/// Acknowledgement of a subscription, one code per filter.
#[derive(Debug, Clone, PartialEq, Eq)]
pub struct SubAck {
    pub pkid: u16,
    pub return_codes: Vec<SubscribeReasonCode>,
}

/// Request to end subscriptions.
#[derive(Debug, Clone, PartialEq, Eq)]
pub struct Unsubscribe {
    pub pkid: u16,
    pub topics: Vec<String>,
}

/// Acknowledgement of an unsubscribe request.
#[derive(Debug, Clone, Copy, PartialEq, Eq, Structural)]
pub struct UnsubAck {
    pub pkid: u16,
}

/// The broker's verdict on a connect packet.
#[derive(Debug, Clone, Copy, PartialEq, Eq, Structural)]
pub enum ConnectReturnCode {
    Success,
    RefusedProtocolVersion,
    BadClientId,
    ServiceUnavailable,
    BadUserNamePassword,
    NotAuthorized,
}

/// Acknowledgement of a connect packet.
#[derive(Debug, Clone, Copy, PartialEq, Eq)]
pub struct ConnAck {
    pub session_present: bool,
    pub code: ConnectReturnCode,
}

/// A packet that arrived from the network. What a connect packet holds is of
/// no use to a client, which never gets one from a sane broker.
#[derive(Debug, Clone, PartialEq, Eq)]
pub enum Incoming {
    Connect,
    ConnAck(ConnAck),
    Publish(Publish),
    PubAck(PubAck),
    PubRec(PubRec),
    PubRel(PubRel),
    PubComp(PubComp),
    Subscribe(Subscribe),
    SubAck(SubAck),
    Unsubscribe(Unsubscribe),
    UnsubAck(UnsubAck),
    PingReq,
    PingResp,
    Disconnect,
}

/// A request of the client to its session. The session serves `Publish`,
/// `PubRel`, `Subscribe`, `Unsubscribe`, `PingReq` and `Disconnect`.
#[derive(Debug, Clone, PartialEq, Eq)]
pub enum Request {
    Publish(Publish),
    PubAck(PubAck),
    PubRec(PubRec),
    PubComp(PubComp),
    PubRel(PubRel),
    PingReq,
    PingResp,
    Subscribe(Subscribe),
    SubAck(SubAck),
    Unsubscribe(Unsubscribe),
    UnsubAck(UnsubAck),
    Disconnect,
}

/// What the session has put out for the network. The number is the packet id;
/// that of a QoS 0 publish means nothing.
#[derive(Debug, Clone, Copy, PartialEq, Eq)]
pub enum Outgoing {
    Publish(u16),
    Subscribe(u16),
    Unsubscribe(u16),
    PubAck(u16),
    PubRec(u16),
    PubRel(u16),
    PubComp(u16),
    PingReq,
    PingResp,
    Disconnect,
    /// A publish is held back until its packet id is acknowledged.
    AwaitAck(u16),
}

/// A notification for the user of the session.
#[derive(Debug, Clone, PartialEq, Eq)]
pub enum Event {
    Incoming(Incoming),
    Outgoing(Outgoing),
}

} // verus!
