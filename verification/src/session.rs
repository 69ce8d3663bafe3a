//! What a session is and how requests and packets change it, as mathematics.

use std::time::Instant;

use vstd::prelude::*;

use crate::error::{PacketError, StateError};
use crate::packet::{
    Event, Incoming, Outgoing, PubRel, Publish, QoS, Request, Subscribe, Unsubscribe,
};
use crate::wire::{
    after_write, be16, publish_first, publish_rest, subscribe_rest, unsubscribe_rest, MAX_REMAINING,
};

verus! {

/// The monotonic clock reading of the standard library.
#[verifier::external_type_specification]
#[verifier::external_body]
pub struct ExInstant(Instant);

/// A clone of a clock reading is the same reading.
pub assume_specification[ <Instant as Clone>::clone ](instant: &Instant) -> (r: Instant)
    ensures
        r == *instant,
;

/// A session. Slot `i` of each table belongs to packet id `i`; slot 0 of the
/// outgoing tables stays empty, for 0 is no packet id.
#[verifier::ext_equal]
pub struct Session {
    /// A ping is out and not answered.
    pub await_pingresp: bool,
    /// Pings sent off since a publish collided.
    pub collision_ping_count: int,
    /// When the last packet was taken in.
    pub last_incoming: Instant,
    /// When the last request was served.
    pub last_outgoing: Instant,
    /// The packet id handed out last, or 0 where the next is 1.
    pub last_pkid: int,
    /// The publishes in flight: those held and those released.
    pub inflight: int,
    /// The highest packet id that is handed out.
    pub max_inflight: int,
    /// QoS 1 and 2 publishes that are sent and not acknowledged.
    pub outgoing_pub: Seq<Option<Publish>>,
    /// Released QoS 2 publishes whose exchange is not ended.
    pub outgoing_rel: Seq<Option<u16>>,
    /// Received QoS 2 publishes that are not released.
    pub incoming_pub: Seq<Option<u16>>,
    /// A publish that waits for its packet id to become free.
    pub collision: Option<Publish>,
    /// Notifications that the user has not taken.
    pub events: Seq<Event>,
    /// Bytes that the network has not taken.
    pub write: Seq<u8>,
}

/// A session after an operation, and what the operation returns.
pub struct Outcome {
    pub session: Session,
    pub result: Result<(), StateError>,
}

/// The number of packet ids, 0 included.
pub const PKID_COUNT: usize = 65_536;

/// A publish that takes part in an acknowledged exchange: it has a packet id,
/// and its length can be counted.
pub open spec fn numbered(p: Publish) -> bool {
    &&& p.qos != QoS::AtMostOnce
    &&& p.pkid != 0
    &&& publish_rest(p).len() <= usize::MAX
}

/// A publish with another packet id.
pub open spec fn with_pkid(p: Publish, pkid: int) -> Publish {
    Publish { pkid: pkid as u16, ..p }
}

/// A table with every slot empty.
pub open spec fn empty_slots<T>(n: nat) -> Seq<Option<T>> {
    Seq::new(n, |i: int| None::<T>)
}

/// The requests that send again what a table of publishes holds, by slot.
pub open spec fn held_publishes(slots: Seq<Option<Publish>>) -> Seq<Request> {
    slots.filter(|s: Option<Publish>| s is Some).map_values(|s: Option<Publish>| Request::Publish(s->0))
}

/// The requests that send again what a table of releases holds, by slot.
pub open spec fn held_releases(slots: Seq<Option<u16>>) -> Seq<Request> {
    slots.filter(|s: Option<u16>| s is Some).map_values(
        |s: Option<u16>| Request::PubRel(PubRel { pkid: s->0 }),
    )
}

/// The number of slots that hold something.
pub open spec fn occupied<T>(slots: Seq<Option<T>>) -> nat
    decreases slots.len(),
{
    if slots.len() == 0 {
        0
    } else {
        occupied(slots.drop_last()) + (if slots.last() is Some { 1nat } else { 0 })
    }
}

impl Session {
    /// What holds of every session between two operations.
    pub open spec fn valid(self) -> bool {
        &&& 0 <= self.max_inflight <= u16::MAX
        &&& 0 <= self.inflight <= u16::MAX
        &&& 0 <= self.last_pkid <= u16::MAX
        &&& self.max_inflight > 0 ==> self.last_pkid < self.max_inflight
        &&& 0 <= self.collision_ping_count <= usize::MAX
        &&& self.outgoing_pub.len() == self.max_inflight + 1
        &&& self.outgoing_rel.len() == self.max_inflight + 1
        &&& self.incoming_pub.len() == PKID_COUNT
        &&& forall|i: int|
            0 <= i <= self.max_inflight && (#[trigger] self.outgoing_pub[i]) is Some ==> numbered(
                self.outgoing_pub[i]->0,
            ) && self.outgoing_pub[i]->0.pkid == i
        &&& forall|i: int|
            0 <= i <= self.max_inflight && (#[trigger] self.outgoing_rel[i]) is Some ==> i > 0
                && self.outgoing_rel[i] == Some(i as u16)
        &&& forall|i: int|
            0 <= i < PKID_COUNT && (#[trigger] self.incoming_pub[i]) is Some ==> self.incoming_pub[i] == Some(
                i as u16,
            )
        &&& self.collision matches Some(p) ==> numbered(p) && p.pkid <= self.max_inflight
        &&& occupied(self.outgoing_pub) + occupied(self.outgoing_rel) <= self.inflight
    }

    /// A session in which nothing has happened.
    pub open spec fn is_fresh(self, max_inflight: int) -> bool {
        &&& !self.await_pingresp
        &&& self.collision_ping_count == 0
        &&& self.last_pkid == 0
        &&& self.inflight == 0
        &&& self.max_inflight == max_inflight
        &&& self.outgoing_pub == empty_slots::<Publish>((max_inflight + 1) as nat)
        &&& self.outgoing_rel == empty_slots::<u16>((max_inflight + 1) as nat)
        &&& self.incoming_pub == empty_slots::<u16>(PKID_COUNT as nat)
        &&& self.collision is None
        &&& self.events == Seq::<Event>::empty()
        &&& self.write == Seq::<u8>::empty()
    }

    /// The packet id that a packet gets: its own, or the next one for 0.
    pub open spec fn pkid_for(self, pkid: u16) -> int {
        if pkid == 0 {
            self.last_pkid + 1
        } else {
            pkid as int
        }
    }

    /// The session once the next packet id is handed out. Ids run up to
    /// `max_inflight` and start again at 1.
    pub open spec fn advance_pkid(self) -> Session {
        Session {
            last_pkid: if self.last_pkid + 1 == self.max_inflight {
                0
            } else {
                self.last_pkid + 1
            },
            ..self
        }
    }

    /// A packet is put into the write buffer and the user is told; one that is
    /// too long leaves its first byte and an error.
    pub open spec fn emit(self, first: u8, rest: Seq<u8>, note: Outgoing) -> Outcome {
        let write = after_write(self.write, first, rest);
        if rest.len() <= MAX_REMAINING {
            Outcome {
                session: Session { write, events: self.events.push(Event::Outgoing(note)), ..self },
                result: Ok(()),
            }
        } else {
            Outcome {
                session: Session { write, ..self },
                result: Err(StateError::Deserialization(PacketError::PayloadTooLong)),
            }
        }
    }

    /// A publish is put into the write buffer.
    pub open spec fn transmit(self, p: Publish) -> Outcome {
        self.emit(publish_first(p), publish_rest(p), Outgoing::Publish(p.pkid))
    }

    /// A publish is held until it is acknowledged.
    pub open spec fn hold(self, p: Publish) -> Session {
        Session {
            outgoing_pub: self.outgoing_pub.update(p.pkid as int, Some(p)),
            inflight: self.inflight + 1,
            ..self
        }
    }

    /// The publish that waits for packet id `pkid`.
    pub open spec fn waiting_for(self, pkid: u16) -> Option<Publish> {
        match self.collision {
            Some(p) if p.pkid == pkid => Some(p),
            _ => None,
        }
    }

    // Requests

    /// QoS 0 is sent and forgotten. QoS 1 and 2 get a packet id where they
    /// have none; where the id is still in use the publish waits, else it is
    /// held and sent.
    pub open spec fn outgoing_publish(self, p: Publish) -> Outcome {
        if p.qos == QoS::AtMostOnce {
            self.transmit(p)
        } else {
            let s = if p.pkid == 0 {
                self.advance_pkid()
            } else {
                self
            };
            let q = with_pkid(p, self.pkid_for(p.pkid));
            if s.outgoing_pub[q.pkid as int] is Some {
                Outcome {
                    session: Session {
                        collision: Some(q),
                        events: s.events.push(Event::Outgoing(Outgoing::AwaitAck(q.pkid))),
                        ..s
                    },
                    result: Ok(()),
                }
            } else {
                s.hold(q).transmit(q)
            }
        }
    }

    /// A release is recorded under its packet id. One that is recorded anew
    /// is in flight again.
    pub open spec fn record_release(self, pkid: u16) -> Session {
        Session {
            outgoing_rel: self.outgoing_rel.update(pkid as int, Some(pkid)),
            inflight: if self.outgoing_rel[pkid as int] is Some {
                self.inflight
            } else {
                self.inflight + 1
            },
            ..self
        }
    }

    /// A release is recorded under its packet id, or under the next one where
    /// it has none, and sent.
    pub open spec fn outgoing_pubrel(self, pubrel: PubRel) -> Outcome {
        let s = if pubrel.pkid == 0 {
            self.advance_pkid()
        } else {
            self
        };
        let pkid = self.pkid_for(pubrel.pkid) as u16;
        s.record_release(pkid).emit(0x62, be16(pkid as int), Outgoing::PubRel(pkid))
    }

    /// A ping is sent unless the one before is not answered. While a publish
    /// waits for its packet id, the second ping is one too many.
    pub open spec fn outgoing_ping(self) -> Outcome {
        let s = if self.collision is Some {
            Session { collision_ping_count: self.collision_ping_count + 1, ..self }
        } else {
            self
        };
        if s.collision is Some && s.collision_ping_count >= 2 {
            Outcome { session: s, result: Err(StateError::CollisionTimeout) }
        } else if s.await_pingresp {
            Outcome { session: s, result: Err(StateError::AwaitPingResp) }
        } else {
            Session { await_pingresp: true, ..s }.emit(0xC0, seq![], Outgoing::PingReq)
        }
    }

    /// A subscription is sent under the next packet id.
    pub open spec fn outgoing_subscribe(self, subscribe: Subscribe) -> Outcome {
        let pkid = (self.last_pkid + 1) as u16;
        self.advance_pkid().emit(0x82, subscribe_rest(Subscribe { pkid, ..subscribe }), Outgoing::Subscribe(pkid))
    }

    /// An unsubscribe request is sent under the next packet id.
    pub open spec fn outgoing_unsubscribe(self, unsubscribe: Unsubscribe) -> Outcome {
        let pkid = (self.last_pkid + 1) as u16;
        self.advance_pkid().emit(
            0xA2,
            unsubscribe_rest(Unsubscribe { pkid, ..unsubscribe }),
            Outgoing::Unsubscribe(pkid),
        )
    }

    /// A disconnect packet is sent.
    pub open spec fn outgoing_disconnect(self) -> Outcome {
        self.emit(0xE0, seq![], Outgoing::Disconnect)
    }

    /// The requests that the session can serve as it is: those it knows, with
    /// a packet id within `max_inflight` and with counters that do not overflow.
    pub open spec fn accepts_request(self, request: Request) -> bool {
        match request {
            Request::Publish(p) => {
                &&& publish_rest(p).len() <= usize::MAX
                &&& p.qos != QoS::AtMostOnce ==> {
                    let pkid = self.pkid_for(p.pkid);
                    &&& pkid <= self.max_inflight
                    &&& self.outgoing_pub[pkid] is None ==> self.inflight < u16::MAX
                }
            },
            Request::PubRel(pubrel) => {
                let pkid = self.pkid_for(pubrel.pkid);
                &&& pkid <= self.max_inflight
                &&& self.outgoing_rel[pkid] is None ==> self.inflight < u16::MAX
            },
            Request::Subscribe(s) => self.last_pkid < u16::MAX && subscribe_rest(s).len() <= usize::MAX,
            Request::Unsubscribe(u) => self.last_pkid < u16::MAX && unsubscribe_rest(u).len() <= usize::MAX,
            Request::PingReq => self.collision is Some ==> self.collision_ping_count < usize::MAX,
            Request::Disconnect => true,
            _ => false,
        }
    }

    /// What a request does, apart from the time of day.
    pub open spec fn request(self, request: Request) -> Outcome
        recommends
            self.accepts_request(request),
    {
        match request {
            Request::Publish(p) => self.outgoing_publish(p),
            Request::PubRel(pubrel) => self.outgoing_pubrel(pubrel),
            Request::Subscribe(s) => self.outgoing_subscribe(s),
            Request::Unsubscribe(u) => self.outgoing_unsubscribe(u),
            Request::PingReq => self.outgoing_ping(),
            Request::Disconnect => self.outgoing_disconnect(),
            _ => Outcome { session: self, result: Err(StateError::InvalidState) },
        }
    }

    // Packets

    /// QoS 1 is acknowledged. QoS 2 is answered and remembered until released.
    pub open spec fn incoming_publish(self, p: Publish) -> Outcome {
        match p.qos {
            QoS::AtMostOnce => Outcome { session: self, result: Ok(()) },
            QoS::AtLeastOnce => self.emit(0x40, be16(p.pkid as int), Outgoing::PubAck(p.pkid)),
            QoS::ExactlyOnce => Session {
                incoming_pub: self.incoming_pub.update(p.pkid as int, Some(p.pkid)),
                ..self
            }.emit(0x50, be16(p.pkid as int), Outgoing::PubRec(p.pkid)),
        }
    }

    /// An acknowledgement that nothing awaits.
    pub open spec fn unsolicited(self, pkid: u16) -> Outcome {
        Outcome { session: self, result: Err(StateError::Unsolicited(pkid)) }
    }

    /// The slot becomes free. A publish that waits for it is held there and
    /// sent, even where nothing was held before.
    pub open spec fn incoming_puback(self, pkid: u16) -> Outcome {
        if pkid > self.max_inflight {
            self.unsolicited(pkid)
        } else {
            let solicited = self.outgoing_pub[pkid as int] is Some;
            let answer: Result<(), StateError> = if solicited {
                Ok(())
            } else {
                Err(StateError::Unsolicited(pkid))
            };
            let s = Session {
                outgoing_pub: self.outgoing_pub.update(pkid as int, None),
                inflight: if solicited {
                    self.inflight - 1
                } else {
                    self.inflight
                },
                ..self
            };
            match self.waiting_for(pkid) {
                Some(p) => s.hold(p).resolve(p, answer),
                None => Outcome { session: s, result: answer },
            }
        }
    }

    /// The publish `p` no longer waits and is sent; where that succeeds, the
    /// pings are counted anew and `answer` is the result.
    pub open spec fn resolve(self, p: Publish, answer: Result<(), StateError>) -> Outcome {
        let sent = Session { collision: None, ..self }.transmit(p);
        if sent.result is Ok {
            Outcome { session: Session { collision_ping_count: 0, ..sent.session }, result: answer }
        } else {
            sent
        }
    }

    /// A held publish is given up for its release, which is sent.
    pub open spec fn incoming_pubrec(self, pkid: u16) -> Outcome {
        if pkid <= self.max_inflight && self.outgoing_pub[pkid as int] is Some {
            Session {
                outgoing_pub: self.outgoing_pub.update(pkid as int, None),
                outgoing_rel: self.outgoing_rel.update(pkid as int, Some(pkid)),
                ..self
            }.emit(0x62, be16(pkid as int), Outgoing::PubRel(pkid))
        } else {
            self.unsolicited(pkid)
        }
    }

    /// A remembered publish is forgotten, and the exchange is ended.
    pub open spec fn incoming_pubrel(self, pkid: u16) -> Outcome {
        if self.incoming_pub[pkid as int] is Some {
            Session { incoming_pub: self.incoming_pub.update(pkid as int, None), ..self }.emit(
                0x70,
                be16(pkid as int),
                Outgoing::PubComp(pkid),
            )
        } else {
            self.unsolicited(pkid)
        }
    }

    /// The recorded release is given up. A publish that waits for the id is
    /// sent, and held where its slot is free; one that is too long to be sent
    /// ends the matter, and the release stays.
    pub open spec fn incoming_pubcomp(self, pkid: u16) -> Outcome {
        if pkid > self.max_inflight {
            self.unsolicited(pkid)
        } else {
            let solicited = self.outgoing_rel[pkid as int] is Some;
            let answer: Result<(), StateError> = if solicited {
                Ok(())
            } else {
                Err(StateError::Unsolicited(pkid))
            };
            let s = Session {
                outgoing_rel: self.outgoing_rel.update(pkid as int, None),
                inflight: if solicited {
                    self.inflight - 1
                } else {
                    self.inflight
                },
                ..self
            };
            match self.waiting_for(pkid) {
                Some(p) => if publish_rest(p).len() > MAX_REMAINING {
                    self.resolve(p, answer)
                } else if self.outgoing_pub[pkid as int] is None {
                    s.hold(p).resolve(p, answer)
                } else {
                    s.resolve(p, answer)
                },
                None => Outcome { session: s, result: answer },
            }
        }
    }

    /// The packets that the session can take as it is: all but an unsolicited
    /// acknowledgement that lets go a publish for which the counter has no room.
    pub open spec fn accepts_packet(self, packet: Incoming) -> bool {
        match packet {
            Incoming::PubAck(a) => {
                self.waiting_for(a.pkid) is Some && self.outgoing_pub[a.pkid as int] is None
                    ==> self.inflight < u16::MAX
            },
            Incoming::PubComp(a) => {
                (self.waiting_for(a.pkid) matches Some(p) && publish_rest(p).len() <= MAX_REMAINING)
                    && self.outgoing_pub[a.pkid as int] is None && self.outgoing_rel[a.pkid as int] is None
                    ==> self.inflight < u16::MAX
            },
            _ => true,
        }
    }

    /// What the session does about a packet before the user is told of it.
    pub open spec fn reaction(self, packet: Incoming) -> Outcome {
        match packet {
            Incoming::PingResp => Outcome {
                session: Session { await_pingresp: false, ..self },
                result: Ok(()),
            },
            Incoming::Publish(p) => self.incoming_publish(p),
            Incoming::SubAck(_) => Outcome { session: self, result: Ok(()) },
            Incoming::UnsubAck(_) => Outcome { session: self, result: Ok(()) },
            Incoming::PubAck(a) => self.incoming_puback(a.pkid),
            Incoming::PubRec(a) => self.incoming_pubrec(a.pkid),
            Incoming::PubRel(a) => self.incoming_pubrel(a.pkid),
            Incoming::PubComp(a) => self.incoming_pubcomp(a.pkid),
            _ => Outcome { session: self, result: Err(StateError::WrongPacket) },
        }
    }

    /// What a packet does, apart from the time of day: the reaction, then a
    /// notification unless the reaction is an error.
    pub open spec fn packet(self, packet: Incoming) -> Outcome
        recommends
            self.accepts_packet(packet),
    {
        let done = self.reaction(packet);
        if done.result is Ok {
            Outcome {
                session: Session { events: done.session.events.push(Event::Incoming(packet)), ..done.session },
                result: Ok(()),
            }
        } else {
            done
        }
    }

    /// The requests that send again what is in flight: the publishes, then the
    /// releases, each in the order of their packet ids.
    pub open spec fn pending(self) -> Seq<Request> {
        held_publishes(self.outgoing_pub) + held_releases(self.outgoing_rel)
    }

    /// The session with nothing in flight either way.
    pub open spec fn cleaned(self) -> Session {
        Session {
            await_pingresp: false,
            collision_ping_count: 0,
            inflight: 0,
            outgoing_pub: empty_slots(self.outgoing_pub.len()),
            outgoing_rel: empty_slots(self.outgoing_rel.len()),
            incoming_pub: empty_slots(self.incoming_pub.len()),
            ..self
        }
    }
}

/// One more slot adds its publish, or nothing.
pub proof fn lemma_held_publishes_step(slots: Seq<Option<Publish>>, i: int)
    requires
        0 <= i < slots.len(),
    ensures
        held_publishes(slots.take(i + 1)) == (match slots[i] {
            Some(p) => held_publishes(slots.take(i)).push(Request::Publish(p)),
            None => held_publishes(slots.take(i)),
        }),
{
    reveal(Seq::filter);
    assert(slots.take(i + 1).drop_last() =~= slots.take(i));
    assert(slots.take(i + 1).last() == slots[i]);
    if slots[i] is Some {
        assert(held_publishes(slots.take(i + 1)) =~= held_publishes(slots.take(i)).push(
            Request::Publish(slots[i]->0),
        ));
    }
}

/// One more slot adds its release, or nothing.
pub proof fn lemma_held_releases_step(slots: Seq<Option<u16>>, i: int)
    requires
        0 <= i < slots.len(),
    ensures
        held_releases(slots.take(i + 1)) == (match slots[i] {
            Some(pkid) => held_releases(slots.take(i)).push(Request::PubRel(PubRel { pkid })),
            None => held_releases(slots.take(i)),
        }),
{
    reveal(Seq::filter);
    assert(slots.take(i + 1).drop_last() =~= slots.take(i));
    assert(slots.take(i + 1).last() == slots[i]);
    if slots[i] is Some {
        assert(held_releases(slots.take(i + 1)) =~= held_releases(slots.take(i)).push(
            Request::PubRel(PubRel { pkid: slots[i]->0 }),
        ));
    }
}

/// A slot that changes moves the number by what it held and what it holds.
pub proof fn lemma_occupied_update<T>(slots: Seq<Option<T>>, i: int, x: Option<T>)
    requires
        0 <= i < slots.len(),
    ensures
        occupied(slots.update(i, x)) == occupied(slots) - (if slots[i] is Some { 1int } else { 0 }) + (if x is Some {
            1int
        } else {
            0
        }),
    decreases slots.len(),
{
    let rest = slots.drop_last();
    if i == slots.len() - 1 {
        assert(slots.update(i, x).drop_last() =~= rest);
    } else {
        lemma_occupied_update(rest, i, x);
        assert(slots.update(i, x).drop_last() =~= rest.update(i, x));
    }
}

/// Nothing is held in empty slots.
pub proof fn lemma_occupied_empty<T>(n: nat)
    ensures
        occupied(empty_slots::<T>(n)) == 0,
    decreases n,
{
    if n > 0 {
        lemma_occupied_empty::<T>((n - 1) as nat);
        assert(empty_slots::<T>(n).drop_last() =~= empty_slots::<T>((n - 1) as nat));
    }
}

/// With slot 0 empty, fewer slots are held than there are.
pub proof fn lemma_occupied_bound<T>(slots: Seq<Option<T>>)
    requires
        slots.len() > 0,
        slots[0] is None,
    ensures
        occupied(slots) < slots.len(),
    decreases slots.len(),
{
    if slots.len() > 1 {
        lemma_occupied_bound(slots.drop_last());
    } else {
        assert(occupied(slots.drop_last()) == 0);
    }
}

/// A held slot counts.
pub proof fn lemma_occupied_positive<T>(slots: Seq<Option<T>>, i: int)
    requires
        0 <= i < slots.len(),
        slots[i] is Some,
    ensures
        occupied(slots) > 0,
{
    lemma_occupied_update(slots, i, None);
}

} // verus!
