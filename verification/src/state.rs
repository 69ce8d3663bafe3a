//! The state of an MQTT connection.

use std::collections::VecDeque;
use std::time::Instant;

use bytes::BytesMut;
use vstd::prelude::*;

use crate::error::{PacketError, StateError};
use crate::laws::{
    law_cleaning_keeps_valid, law_fresh_is_valid, law_packets_keep_valid, law_requests_keep_valid,
};
use crate::packet::{
    Event, Incoming, Outgoing, PubAck, PubComp, PubRec, PubRel, Publish, QoS, Request, Subscribe,
    Unsubscribe,
};
use crate::session::{
    empty_slots, held_publishes, held_releases, lemma_held_publishes_step, lemma_held_releases_step,
    lemma_occupied_positive, Session, PKID_COUNT,
};
use crate::wire::{
    buffered, new_buffer, publish_len, publish_rest, subscribe_len, unsubscribe_len,
    write_disconnect, write_pingreq, write_puback, write_pubcomp, write_publish, write_pubrec,
    write_pubrel, write_subscribe, write_unsubscribe, MAX_REMAINING,
};

verus! {

/// Reads the clock: `std::time::Instant::now`. Nothing is claimed of the reading.
#[verifier::external_body]
fn read_clock() -> Instant {
    Instant::now()
}

/// State of the mqtt connection. Its methods only change it: what they would
/// send collects in `write`, what they would tell the user in `events`.
///
/// The tables have one slot per packet id, so that a bad or late
/// acknowledgement costs no search, and one that is missing shows when its
/// packet id comes round again.
///
/// Callers take events and bytes away, and leave the rest to the methods, which
/// rely on the session being valid.
#[derive(Debug, Clone)]
pub struct MqttState {
    /// Status of the last ping.
    pub await_pingresp: bool,
    /// Pings since a collision. Collisions stop user requests, which in turn
    /// triggers pings. Several of them without a resolved collision are an error.
    pub collision_ping_count: usize,
    /// Time of the last incoming packet.
    pub last_incoming: Instant,
    /// Time of the last outgoing packet.
    pub last_outgoing: Instant,
    /// Packet id of the last outgoing packet.
    pub last_pkid: u16,
    /// Number of outgoing publishes in flight.
    pub inflight: u16,
    /// Maximum number of allowed publishes in flight.
    pub max_inflight: u16,
    /// Outgoing QoS 1, 2 publishes which aren't acked yet.
    pub outgoing_pub: Vec<Option<Publish>>,
    /// Packet ids of released QoS 2 publishes.
    pub outgoing_rel: Vec<Option<u16>>,
    /// Packet ids of incoming QoS 2 publishes.
    pub incoming_pub: Vec<Option<u16>>,
    /// Last collision due to a broker that doesn't ack in order.
    pub collision: Option<Publish>,
    /// Notifications for the user.
    pub events: VecDeque<Event>,
    /// Write buffer.
    pub write: BytesMut,
}

impl View for MqttState {
    type V = Session;

    open spec fn view(&self) -> Session {
        Session {
            await_pingresp: self.await_pingresp,
            collision_ping_count: self.collision_ping_count as int,
            last_incoming: self.last_incoming,
            last_outgoing: self.last_outgoing,
            last_pkid: self.last_pkid as int,
            inflight: self.inflight as int,
            max_inflight: self.max_inflight as int,
            outgoing_pub: self.outgoing_pub@,
            outgoing_rel: self.outgoing_rel@,
            incoming_pub: self.incoming_pub@,
            collision: self.collision,
            events: self.events@,
            write: buffered(self.write),
        }
    }
}

impl MqttState {
    /// Creates new mqtt state. The same state should be used over the
    /// connections of a persistent session, while a new one should be created
    /// for a clean session.
    pub fn new(max_inflight: u16) -> (r: MqttState)
        ensures
            r@.valid(),
            r@.is_fresh(max_inflight as int),
    {
        MqttState::new_at(max_inflight, read_clock(), read_clock())
    }

    /// Creates new mqtt state, as `new` does at the given times.
    pub fn new_at(max_inflight: u16, last_incoming: Instant, last_outgoing: Instant) -> (r: MqttState)
        ensures
            r@.valid(),
            r@.is_fresh(max_inflight as int),
            r@.last_incoming == last_incoming,
            r@.last_outgoing == last_outgoing,
    {
        let slots: usize = max_inflight as usize + 1;
        let r = MqttState {
            await_pingresp: false,
            collision_ping_count: 0,
            last_incoming,
            last_outgoing,
            last_pkid: 0,
            inflight: 0,
            max_inflight,
            // slot 0 is wasted, as 0 is not a valid packet id
            outgoing_pub: no_publishes(slots),
            outgoing_rel: no_pkids(slots),
            incoming_pub: no_pkids(PKID_COUNT),
            collision: None,
            events: VecDeque::with_capacity(100),
            write: new_buffer(10 * 1024),
        };
        proof {
            law_fresh_is_valid(r@, max_inflight as int);
        }
        r
    }

    /// Returns what is in flight to the broker and clears the tables.
    pub fn clean(&mut self) -> (pending: Vec<Request>)
        requires
            old(self)@.valid(),
        ensures
            final(self)@.valid(),
            final(self)@ == old(self)@.cleaned(),
            pending@ == old(self)@.pending(),
    {
        proof {
            law_cleaning_keeps_valid(self@);
        }
        let mut pending: Vec<Request> = Vec::with_capacity(100);
        take_publishes(&mut self.outgoing_pub, &mut pending);
        take_releases(&mut self.outgoing_rel, &mut pending);
        forget(&mut self.incoming_pub);
        self.await_pingresp = false;
        self.collision_ping_count = 0;
        self.inflight = 0;
        pending
    }

    /// Number of outgoing publishes in flight.
    pub fn inflight(&self) -> (r: u16)
        ensures
            r == self@.inflight,
    {
        self.inflight
    }

    /// Whether `handle_outgoing_packet` can serve a request as things are.
    pub fn accepts_request(&self, request: &Request) -> (r: bool)
        requires
            self@.valid(),
        ensures
            r == self@.accepts_request(*request),
    {
        match request {
            Request::Publish(publish) => {
                if publish_len(publish).is_none() {
                    return false;
                }
                if publish.qos == QoS::AtMostOnce {
                    return true;
                }
                if !self.has_slot(publish.pkid) {
                    return false;
                }
                let slot: usize = self.slot_for(publish.pkid);
                self.outgoing_pub[slot].is_some() || self.inflight < u16::MAX
            },
            Request::PubRel(pubrel) => {
                if !self.has_slot(pubrel.pkid) {
                    return false;
                }
                let slot: usize = self.slot_for(pubrel.pkid);
                self.outgoing_rel[slot].is_some() || self.inflight < u16::MAX
            },
            Request::Subscribe(subscribe) => {
                self.last_pkid < u16::MAX && subscribe_len(subscribe).is_some()
            },
            Request::Unsubscribe(unsubscribe) => {
                self.last_pkid < u16::MAX && unsubscribe_len(unsubscribe).is_some()
            },
            Request::PingReq => self.collision.is_none() || self.collision_ping_count < usize::MAX,
            Request::Disconnect => true,
            _ => false,
        }
    }

    /// Whether `handle_incoming_packet` can take a packet as things are.
    pub fn accepts_packet(&self, packet: &Incoming) -> (r: bool)
        requires
            self@.valid(),
        ensures
            r == self@.accepts_packet(*packet),
    {
        match packet {
            Incoming::PubAck(puback) => match &self.collision {
                Some(publish) => {
                    publish.pkid != puback.pkid || self.inflight < u16::MAX
                        || self.outgoing_pub[puback.pkid as usize].is_some()
                },
                None => true,
            },
            Incoming::PubComp(pubcomp) => match &self.collision {
                Some(publish) => {
                    publish.pkid != pubcomp.pkid || self.inflight < u16::MAX
                        || self.outgoing_pub[pubcomp.pkid as usize].is_some()
                        || self.outgoing_rel[pubcomp.pkid as usize].is_some() || match publish_len(publish) {
                        Some(n) => n > MAX_REMAINING,
                        None => true,
                    }
                },
                None => true,
            },
            _ => true,
        }
    }

    /// The slot of a packet id, or of the next one.
    fn slot_for(&self, pkid: u16) -> (r: usize)
        ensures
            r == self@.pkid_for(pkid),
    {
        if pkid == 0 {
            self.last_pkid as usize + 1
        } else {
            pkid as usize
        }
    }

    /// Whether the tables have a slot for a packet id, or for the next one.
    fn has_slot(&self, pkid: u16) -> (r: bool)
        requires
            self@.valid(),
        ensures
            r == (self@.pkid_for(pkid) <= self@.max_inflight),
    {
        if pkid == 0 {
            self.last_pkid < self.max_inflight
        } else {
            pkid <= self.max_inflight
        }
    }

    /// Consolidates handling of all outgoing mqtt packets. What should be put
    /// on the network is appended to `write`.
    pub fn handle_outgoing_packet(&mut self, request: Request) -> (r: Result<(), StateError>)
        requires
            old(self)@.valid(),
            old(self)@.accepts_request(request),
        ensures
            final(self)@.valid(),
            r == old(self)@.request(request).result,
            final(self)@ == (Session {
                last_outgoing: final(self)@.last_outgoing,
                ..old(self)@.request(request).session
            }),
            r is Err ==> final(self)@.last_outgoing == old(self)@.last_outgoing,
    {
        let now = read_clock();
        self.handle_outgoing_packet_at(request, now)
    }

    /// Handles an outgoing packet, as `handle_outgoing_packet` does at the
    /// time `now`.
    pub fn handle_outgoing_packet_at(&mut self, request: Request, now: Instant) -> (r: Result<(), StateError>)
        requires
            old(self)@.valid(),
            old(self)@.accepts_request(request),
        ensures
            final(self)@.valid(),
            r == old(self)@.request(request).result,
            final(self)@ == (Session {
                last_outgoing: if r is Ok {
                    now
                } else {
                    old(self)@.last_outgoing
                },
                ..old(self)@.request(request).session
            }),
    {
        proof {
            law_requests_keep_valid(self@, request);
        }
        let out = match request {
            Request::Publish(publish) => self.outgoing_publish(publish),
            Request::PubRel(pubrel) => self.outgoing_pubrel(pubrel),
            Request::Subscribe(subscribe) => self.outgoing_subscribe(subscribe),
            Request::Unsubscribe(unsubscribe) => self.outgoing_unsubscribe(unsubscribe),
            Request::PingReq => self.outgoing_ping(),
            Request::Disconnect => self.outgoing_disconnect(),
            _ => Err(StateError::InvalidState),
        };
        if out.is_ok() {
            self.last_outgoing = now;
        }
        out
    }

    /// Consolidates handling of all incoming mqtt packets. The packet is
    /// forwarded to the user through `events`, and what answers it on the
    /// network is appended to `write`: an incoming QoS 1 publish gives the
    /// publish to the user and a puback to the broker.
    pub fn handle_incoming_packet(&mut self, packet: Incoming) -> (r: Result<(), StateError>)
        requires
            old(self)@.valid(),
            old(self)@.accepts_packet(packet),
        ensures
            final(self)@.valid(),
            r == old(self)@.packet(packet).result,
            final(self)@ == (Session {
                last_incoming: final(self)@.last_incoming,
                ..old(self)@.packet(packet).session
            }),
            r is Err ==> final(self)@.last_incoming == old(self)@.last_incoming,
    {
        let now = read_clock();
        self.handle_incoming_packet_at(packet, now)
    }

    /// Handles an incoming packet, as `handle_incoming_packet` does at the
    /// time `now`.
    pub fn handle_incoming_packet_at(&mut self, packet: Incoming, now: Instant) -> (r: Result<(), StateError>)
        requires
            old(self)@.valid(),
            old(self)@.accepts_packet(packet),
        ensures
            final(self)@.valid(),
            r == old(self)@.packet(packet).result,
            final(self)@ == (Session {
                last_incoming: if r is Ok {
                    now
                } else {
                    old(self)@.last_incoming
                },
                ..old(self)@.packet(packet).session
            }),
    {
        proof {
            law_packets_keep_valid(self@, packet);
        }
        let out = match &packet {
            Incoming::PingResp => self.handle_incoming_pingresp(),
            Incoming::Publish(publish) => self.handle_incoming_publish(publish),
            Incoming::SubAck(_) => self.handle_incoming_suback(),
            Incoming::UnsubAck(_) => self.handle_incoming_unsuback(),
            Incoming::PubAck(puback) => self.handle_incoming_puback(puback),
            Incoming::PubRec(pubrec) => self.handle_incoming_pubrec(pubrec),
            Incoming::PubRel(pubrel) => self.handle_incoming_pubrel(pubrel),
            Incoming::PubComp(pubcomp) => self.handle_incoming_pubcomp(pubcomp),
            _ => Err(StateError::WrongPacket),
        };
        match out {
            Ok(()) => {
                self.events.push_back(Event::Incoming(packet));
                self.last_incoming = now;
                Ok(())
            },
            Err(e) => Err(e),
        }
    }

    pub(crate) fn handle_incoming_suback(&mut self) -> (r: Result<(), StateError>)
        ensures
            r is Ok,
            *final(self) == *old(self),
    {
        Ok(())
    }

    pub(crate) fn handle_incoming_unsuback(&mut self) -> (r: Result<(), StateError>)
        ensures
            r is Ok,
            *final(self) == *old(self),
    {
        Ok(())
    }

    /// Replies with an ack in case of QoS 1, and with a rec in case of QoS 2
    /// while also storing the packet id.
    pub(crate) fn handle_incoming_publish(&mut self, publish: &Publish) -> (r: Result<(), StateError>)
        requires
            old(self)@.valid(),
        ensures
            final(self)@ == old(self)@.incoming_publish(*publish).session,
            r == old(self)@.incoming_publish(*publish).result,
    {
        let pkid: u16 = publish.pkid;
        match publish.qos {
            QoS::AtMostOnce => Ok(()),
            QoS::AtLeastOnce => match write_puback(pkid, &mut self.write) {
                Ok(_) => {
                    self.events.push_back(Event::Outgoing(Outgoing::PubAck(pkid)));
                    Ok(())
                },
                Err(e) => Err(StateError::from(e)),
            },
            QoS::ExactlyOnce => match write_pubrec(pkid, &mut self.write) {
                Ok(_) => {
                    self.incoming_pub[pkid as usize] = Some(pkid);
                    self.events.push_back(Event::Outgoing(Outgoing::PubRec(pkid)));
                    Ok(())
                },
                Err(e) => Err(StateError::from(e)),
            },
        }
    }

    pub(crate) fn handle_incoming_puback(&mut self, puback: &PubAck) -> (r: Result<(), StateError>)
        requires
            old(self)@.valid(),
            old(self)@.accepts_packet(Incoming::PubAck(*puback)),
        ensures
            final(self)@ == old(self)@.incoming_puback(puback.pkid).session,
            r == old(self)@.incoming_puback(puback.pkid).result,
    {
        if puback.pkid > self.max_inflight {
            return Err(StateError::Unsolicited(puback.pkid));
        }
        let slot: usize = puback.pkid as usize;
        proof {
            if self@.outgoing_pub[slot as int] is Some {
                lemma_occupied_positive(self@.outgoing_pub, slot as int);
            }
        }
        let answer = match self.outgoing_pub[slot].take() {
            Some(_) => {
                self.inflight = self.inflight - 1;
                Ok(())
            },
            None => Err(StateError::Unsolicited(puback.pkid)),
        };
        if let Some(publish) = self.check_collision(puback.pkid) {
            let sent = self.transmit(&publish);
            self.outgoing_pub[slot] = Some(publish);
            self.inflight = self.inflight + 1;
            if sent.is_err() {
                return sent;
            }
            self.collision_ping_count = 0;
        }
        answer
    }

    pub(crate) fn handle_incoming_pubrec(&mut self, pubrec: &PubRec) -> (r: Result<(), StateError>)
        requires
            old(self)@.valid(),
        ensures
            final(self)@ == old(self)@.incoming_pubrec(pubrec.pkid).session,
            r == old(self)@.incoming_pubrec(pubrec.pkid).result,
    {
        let pkid: u16 = pubrec.pkid;
        if pkid > self.max_inflight {
            return Err(StateError::Unsolicited(pkid));
        }
        match self.outgoing_pub[pkid as usize].take() {
            Some(_) => {
                // the publish stays in flight until the exchange ends
                self.outgoing_rel[pkid as usize] = Some(pkid);
                match write_pubrel(pkid, &mut self.write) {
                    Ok(_) => {
                        self.events.push_back(Event::Outgoing(Outgoing::PubRel(pkid)));
                        Ok(())
                    },
                    Err(e) => Err(StateError::from(e)),
                }
            },
            None => Err(StateError::Unsolicited(pkid)),
        }
    }

    pub(crate) fn handle_incoming_pubrel(&mut self, pubrel: &PubRel) -> (r: Result<(), StateError>)
        requires
            old(self)@.valid(),
        ensures
            final(self)@ == old(self)@.incoming_pubrel(pubrel.pkid).session,
            r == old(self)@.incoming_pubrel(pubrel.pkid).result,
    {
        let pkid: u16 = pubrel.pkid;
        match self.incoming_pub[pkid as usize].take() {
            Some(_) => match write_pubcomp(pkid, &mut self.write) {
                Ok(_) => {
                    self.events.push_back(Event::Outgoing(Outgoing::PubComp(pkid)));
                    Ok(())
                },
                Err(e) => Err(StateError::from(e)),
            },
            None => Err(StateError::Unsolicited(pkid)),
        }
    }

    pub(crate) fn handle_incoming_pubcomp(&mut self, pubcomp: &PubComp) -> (r: Result<(), StateError>)
        requires
            old(self)@.valid(),
            old(self)@.accepts_packet(Incoming::PubComp(*pubcomp)),
        ensures
            final(self)@ == old(self)@.incoming_pubcomp(pubcomp.pkid).session,
            r == old(self)@.incoming_pubcomp(pubcomp.pkid).result,
    {
        let pkid: u16 = pubcomp.pkid;
        if pkid > self.max_inflight {
            return Err(StateError::Unsolicited(pkid));
        }
        let slot: usize = pkid as usize;
        proof {
            if self@.outgoing_rel[slot as int] is Some {
                lemma_occupied_positive(self@.outgoing_rel, slot as int);
            }
        }
        let waiting = self.check_collision(pkid);
        if let Some(publish) = &waiting {
            let sent = self.transmit(publish);
            if sent.is_err() {
                return sent;
            }
            self.collision_ping_count = 0;
        }
        let answer = match self.outgoing_rel[slot].take() {
            Some(_) => {
                self.inflight = self.inflight - 1;
                Ok(())
            },
            None => Err(StateError::Unsolicited(pkid)),
        };
        if let Some(publish) = waiting {
            // two publishes cannot be held under one packet id
            if self.outgoing_pub[slot].is_none() {
                self.outgoing_pub[slot] = Some(publish);
                self.inflight = self.inflight + 1;
            }
        }
        answer
    }

    pub(crate) fn handle_incoming_pingresp(&mut self) -> (r: Result<(), StateError>)
        ensures
            r is Ok,
            final(self)@ == (Session { await_pingresp: false, ..old(self)@ }),
    {
        self.await_pingresp = false;
        Ok(())
    }

    /// Adds the next packet identifier to QoS 1 and 2 publish packets and
    /// holds them until they are acknowledged.
    pub(crate) fn outgoing_publish(&mut self, publish: Publish) -> (r: Result<(), StateError>)
        requires
            old(self)@.valid(),
            old(self)@.accepts_request(Request::Publish(publish)),
        ensures
            final(self)@ == old(self)@.outgoing_publish(publish).session,
            r == old(self)@.outgoing_publish(publish).result,
    {
        let mut publish = publish;
        if publish.qos != QoS::AtMostOnce {
            if publish.pkid == 0 {
                publish.pkid = self.next_pkid();
            }
            let pkid: u16 = publish.pkid;
            let slot: usize = pkid as usize;
            if self.outgoing_pub[slot].is_some() {
                self.collision = Some(publish);
                self.events.push_back(Event::Outgoing(Outgoing::AwaitAck(pkid)));
                return Ok(());
            }
            let sent = self.transmit(&publish);
            self.outgoing_pub[slot] = Some(publish);
            self.inflight = self.inflight + 1;
            return sent;
        }
        self.transmit(&publish)
    }

    /// Puts a publish into the write buffer.
    pub(crate) fn transmit(&mut self, publish: &Publish) -> (r: Result<(), StateError>)
        requires
            publish.qos != QoS::AtMostOnce ==> publish.pkid != 0,
            publish_rest(*publish).len() <= usize::MAX,
        ensures
            final(self)@ == old(self)@.transmit(*publish).session,
            r == old(self)@.transmit(*publish).result,
    {
        match write_publish(publish, &mut self.write) {
            Ok(_) => {
                self.events.push_back(Event::Outgoing(Outgoing::Publish(publish.pkid)));
                Ok(())
            },
            Err(_) => Err(StateError::from(PacketError::PayloadTooLong)),
        }
    }

    /// Packet ids are incremented up to the maximum of messages in flight and
    /// start again at 1 after that.
    pub(crate) fn next_pkid(&mut self) -> (pkid: u16)
        requires
            old(self)@.last_pkid < u16::MAX,
        ensures
            pkid == old(self)@.last_pkid + 1,
            final(self)@ == old(self)@.advance_pkid(),
    {
        let next_pkid: u16 = self.last_pkid + 1;
        if next_pkid == self.max_inflight {
            self.last_pkid = 0;
            return next_pkid;
        }
        self.last_pkid = next_pkid;
        next_pkid
    }

    pub(crate) fn outgoing_pubrel(&mut self, pubrel: PubRel) -> (r: Result<(), StateError>)
        requires
            old(self)@.valid(),
            old(self)@.accepts_request(Request::PubRel(pubrel)),
        ensures
            final(self)@ == old(self)@.outgoing_pubrel(pubrel).session,
            r == old(self)@.outgoing_pubrel(pubrel).result,
    {
        let pubrel = self.save_pubrel(pubrel);
        match write_pubrel(pubrel.pkid, &mut self.write) {
            Ok(_) => {
                self.events.push_back(Event::Outgoing(Outgoing::PubRel(pubrel.pkid)));
                Ok(())
            },
            Err(e) => Err(StateError::from(e)),
        }
    }

    /// Sends a ping, unless the last one isn't acked or a collision lasts too long.
    pub(crate) fn outgoing_ping(&mut self) -> (r: Result<(), StateError>)
        requires
            old(self)@.valid(),
            old(self)@.accepts_request(Request::PingReq),
        ensures
            final(self)@ == old(self)@.outgoing_ping().session,
            r == old(self)@.outgoing_ping().result,
    {
        if self.collision.is_some() {
            self.collision_ping_count = self.collision_ping_count + 1;
            if self.collision_ping_count >= 2 {
                return Err(StateError::CollisionTimeout);
            }
        }
        // raise error if last ping didn't receive ack
        if self.await_pingresp {
            return Err(StateError::AwaitPingResp);
        }
        self.await_pingresp = true;
        match write_pingreq(&mut self.write) {
            Ok(_) => {
                self.events.push_back(Event::Outgoing(Outgoing::PingReq));
                Ok(())
            },
            Err(e) => Err(StateError::from(e)),
        }
    }

    pub(crate) fn outgoing_subscribe(&mut self, subscribe: Subscribe) -> (r: Result<(), StateError>)
        requires
            old(self)@.valid(),
            old(self)@.accepts_request(Request::Subscribe(subscribe)),
        ensures
            final(self)@ == old(self)@.outgoing_subscribe(subscribe).session,
            r == old(self)@.outgoing_subscribe(subscribe).result,
    {
        let mut subscribe = subscribe;
        subscribe.pkid = self.next_pkid();
        match write_subscribe(&subscribe, &mut self.write) {
            Ok(_) => {
                self.events.push_back(Event::Outgoing(Outgoing::Subscribe(subscribe.pkid)));
                Ok(())
            },
            Err(_) => Err(StateError::from(PacketError::PayloadTooLong)),
        }
    }

    pub(crate) fn outgoing_unsubscribe(&mut self, unsubscribe: Unsubscribe) -> (r: Result<(), StateError>)
        requires
            old(self)@.valid(),
            old(self)@.accepts_request(Request::Unsubscribe(unsubscribe)),
        ensures
            final(self)@ == old(self)@.outgoing_unsubscribe(unsubscribe).session,
            r == old(self)@.outgoing_unsubscribe(unsubscribe).result,
    {
        let mut unsubscribe = unsubscribe;
        unsubscribe.pkid = self.next_pkid();
        match write_unsubscribe(&unsubscribe, &mut self.write) {
            Ok(_) => {
                self.events.push_back(Event::Outgoing(Outgoing::Unsubscribe(unsubscribe.pkid)));
                Ok(())
            },
            Err(_) => Err(StateError::from(PacketError::PayloadTooLong)),
        }
    }

    pub(crate) fn outgoing_disconnect(&mut self) -> (r: Result<(), StateError>)
        requires
            old(self)@.valid(),
        ensures
            final(self)@ == old(self)@.outgoing_disconnect().session,
            r == old(self)@.outgoing_disconnect().result,
    {
        match write_disconnect(&mut self.write) {
            Ok(_) => {
                self.events.push_back(Event::Outgoing(Outgoing::Disconnect));
                Ok(())
            },
            Err(e) => Err(StateError::from(e)),
        }
    }

    /// Takes out the publish that waits for a packet id.
    pub(crate) fn check_collision(&mut self, pkid: u16) -> (r: Option<Publish>)
        ensures
            r == old(self)@.waiting_for(pkid),
            final(self)@ == (Session {
                collision: if r is Some {
                    None
                } else {
                    old(self)@.collision
                },
                ..old(self)@
            }),
    {
        if let Some(publish) = &self.collision {
            if publish.pkid == pkid {
                return self.collision.take();
            }
        }
        None
    }

    /// Records a release; one with packet id 0 gets the next id first. A
    /// release that is not recorded yet is counted.
    pub(crate) fn save_pubrel(&mut self, pubrel: PubRel) -> (r: PubRel)
        requires
            old(self)@.valid(),
            old(self)@.accepts_request(Request::PubRel(pubrel)),
        ensures
            r.pkid == old(self)@.pkid_for(pubrel.pkid),
            final(self)@ == ({
                let s = if pubrel.pkid == 0 {
                    old(self)@.advance_pkid()
                } else {
                    old(self)@
                };
                s.record_release(r.pkid)
            }),
    {
        let mut pubrel = pubrel;
        if pubrel.pkid == 0 {
            pubrel.pkid = self.next_pkid();
        }
        let slot: usize = pubrel.pkid as usize;
        if self.outgoing_rel[slot].is_none() {
            self.inflight = self.inflight + 1;
        }
        self.outgoing_rel[slot] = Some(pubrel.pkid);
        pubrel
    }
}

/// A table of publishes with every slot empty.
fn no_publishes(n: usize) -> (slots: Vec<Option<Publish>>)
    ensures
        slots@ == empty_slots::<Publish>(n as nat),
{
    let mut slots: Vec<Option<Publish>> = Vec::with_capacity(n);
    for i in 0..n
        invariant
            slots@ == empty_slots::<Publish>(i as nat),
    {
        slots.push(None);
    }
    slots
}

/// A table of packet ids with every slot empty.
fn no_pkids(n: usize) -> (slots: Vec<Option<u16>>)
    ensures
        slots@ == empty_slots::<u16>(n as nat),
{
    let mut slots: Vec<Option<u16>> = Vec::with_capacity(n);
    for i in 0..n
        invariant
            slots@ == empty_slots::<u16>(i as nat),
    {
        slots.push(None);
    }
    slots
}

/// Empties a table of publishes into the requests that send them again.
fn take_publishes(slots: &mut Vec<Option<Publish>>, pending: &mut Vec<Request>)
    ensures
        final(slots)@ == empty_slots::<Publish>(old(slots)@.len()),
        final(pending)@ == old(pending)@ + held_publishes(old(slots)@),
{
    let n: usize = slots.len();
    let ghost all = slots@;
    let ghost before = pending@;
    let mut i: usize = 0;
    assert(held_publishes(all.take(0)) =~= Seq::<Request>::empty()) by {
        reveal(Seq::filter);
    }
    while i < n
        invariant
            n == all.len(),
            slots@.len() == n,
            0 <= i <= n,
            forall|j: int| 0 <= j < i ==> slots@[j] is None,
            forall|j: int| i <= j < n ==> slots@[j] == all[j],
            pending@ == before + held_publishes(all.take(i as int)),
        decreases n - i,
    {
        proof {
            lemma_held_publishes_step(all, i as int);
        }
        if let Some(publish) = slots[i].take() {
            pending.push(Request::Publish(publish));
        }
        i = i + 1;
    }
    assert(all.take(n as int) =~= all);
}

/// Empties a table of releases into the requests that send them again.
fn take_releases(slots: &mut Vec<Option<u16>>, pending: &mut Vec<Request>)
    ensures
        final(slots)@ == empty_slots::<u16>(old(slots)@.len()),
        final(pending)@ == old(pending)@ + held_releases(old(slots)@),
{
    let n: usize = slots.len();
    let ghost all = slots@;
    let ghost before = pending@;
    let mut i: usize = 0;
    assert(held_releases(all.take(0)) =~= Seq::<Request>::empty()) by {
        reveal(Seq::filter);
    }
    while i < n
        invariant
            n == all.len(),
            slots@.len() == n,
            0 <= i <= n,
            forall|j: int| 0 <= j < i ==> slots@[j] is None,
            forall|j: int| i <= j < n ==> slots@[j] == all[j],
            pending@ == before + held_releases(all.take(i as int)),
        decreases n - i,
    {
        proof {
            lemma_held_releases_step(all, i as int);
        }
        if let Some(pkid) = slots[i].take() {
            pending.push(Request::PubRel(PubRel { pkid }));
        }
        i = i + 1;
    }
    assert(all.take(n as int) =~= all);
}

/// Empties a table of packet ids.
fn forget(slots: &mut Vec<Option<u16>>)
    ensures
        final(slots)@ == empty_slots::<u16>(old(slots)@.len()),
{
    let n: usize = slots.len();
    let mut i: usize = 0;
    while i < n
        invariant
            slots@.len() == n,
            0 <= i <= n,
            forall|j: int| 0 <= j < i ==> slots@[j] is None,
        decreases n - i,
    {
        slots[i] = None;
        i = i + 1;
    }
}

} // verus!
