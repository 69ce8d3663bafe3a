//! What each operation does to a session, part by part: which bytes go out,
//! what the user is told, what is kept for later and what stays as it was.

use vstd::prelude::*;

use crate::error::{PacketError, StateError};
use crate::laws::{
    accepts_requests, after_requests, law_cleaning_keeps_valid, law_requests_keep_valid,
};
use crate::packet::{
    Event, Incoming, Outgoing, PubAck, PubComp, PubRec, PubRel, Publish, QoS, Request, Subscribe,
    Unsubscribe,
};
use crate::session::{
    held_publishes, held_releases, lemma_held_publishes_step, lemma_held_releases_step, occupied, Session,
};
use crate::wire::{
    be16, filters_bytes, framed, publish_first, publish_rest, subscribe_rest, topics_bytes,
    unsubscribe_rest, varint, MAX_REMAINING,
};

verus! {

// Words for what follows

/// The four bytes of a packet that holds nothing but a packet id.
pub open spec fn id_bytes(first: u8, k: u16) -> Seq<u8> {
    seq![first, 2u8, (k / 256) as u8, (k % 256) as u8]
}

/// The error of a packet that is too long to be sent.
pub open spec fn too_long() -> Result<(), StateError> {
    Err(StateError::Deserialization(PacketError::PayloadTooLong))
}

/// The error of an acknowledgement that nothing awaits.
pub open spec fn not_asked_for(k: u16) -> Result<(), StateError> {
    Err(StateError::Unsolicited(k))
}

/// Whether a publish waits for packet id `k`.
pub open spec fn waits(s: Session, k: u16) -> bool {
    s.collision is Some && s.collision->0.pkid == k
}

/// Whether slot `k` of the publishes holds one.
pub open spec fn holds_publish(s: Session, k: u16) -> bool {
    k <= s.max_inflight && s.outgoing_pub[k as int] is Some
}

/// Whether slot `k` of the releases holds one.
pub open spec fn holds_release(s: Session, k: u16) -> bool {
    k <= s.max_inflight && s.outgoing_rel[k as int] is Some
}

proof fn lemma_next_id(s: Session)
    requires
        s.valid(),
        s.max_inflight > 0,
    ensures
        (s.last_pkid + 1) % s.max_inflight == (if s.last_pkid + 1 == s.max_inflight {
            0
        } else {
            s.last_pkid + 1
        }),
{
    if s.last_pkid + 1 == s.max_inflight {
        vstd::arithmetic::div_mod::lemma_mod_self_0(s.max_inflight);
    } else {
        vstd::arithmetic::div_mod::lemma_small_mod((s.last_pkid + 1) as nat, s.max_inflight as nat);
    }
}

proof fn lemma_id_frame(first: u8, k: u16)
    ensures
        framed(first, be16(k as int)) == id_bytes(first, k),
        be16(k as int).len() == 2,
{
    assert(varint(2) =~= seq![2u8]);
    assert(framed(first, be16(k as int)) =~= id_bytes(first, k));
}

proof fn lemma_empty_frame(first: u8)
    ensures
        framed(first, Seq::<u8>::empty()) == seq![first, 0u8],
{
    assert(varint(0) =~= seq![0u8]);
    assert(framed(first, Seq::<u8>::empty()) =~= seq![first, 0u8]);
}

// When an operation is open

/// A session is valid exactly when its numbers are in range, its tables have
/// their sizes, every slot holds only what belongs to its packet id, a waiting
/// publish has a packet id within the limit, and no more is held than counted.
pub proof fn law_valid_sessions(s: Session)
    ensures
        s.valid() <==> {
            &&& 0 <= s.max_inflight < 65_536
            &&& 0 <= s.inflight < 65_536
            &&& 0 <= s.last_pkid < 65_536
            &&& s.max_inflight == 0 || s.last_pkid < s.max_inflight
            &&& 0 <= s.collision_ping_count <= usize::MAX
            &&& s.outgoing_pub.len() == s.max_inflight + 1
            &&& s.outgoing_rel.len() == s.max_inflight + 1
            &&& s.incoming_pub.len() == 65_536
            &&& forall|i: int|
                0 <= i <= s.max_inflight && (#[trigger] s.outgoing_pub[i]) is Some ==> {
                    let p = s.outgoing_pub[i]->0;
                    0 < i == p.pkid && p.qos != QoS::AtMostOnce && publish_rest(p).len() <= usize::MAX
                }
            &&& forall|i: int|
                0 <= i <= s.max_inflight && (#[trigger] s.outgoing_rel[i]) is Some ==> 0 < i == s.outgoing_rel[i]->0
            &&& forall|i: int|
                0 <= i < 65_536 && (#[trigger] s.incoming_pub[i]) is Some ==> i == s.incoming_pub[i]->0
            &&& s.collision is Some ==> {
                let p = s.collision->0;
                0 < p.pkid <= s.max_inflight && p.qos != QoS::AtMostOnce && publish_rest(p).len() <= usize::MAX
            }
            &&& occupied(s.outgoing_pub) + occupied(s.outgoing_rel) <= s.inflight
        },
{
}

/// A request is open exactly when the session knows its kind, its packet id is
/// within the limit, its length can be counted and the counters have room.
pub proof fn law_open_requests(s: Session, request: Request)
    requires
        s.valid(),
    ensures
        s.accepts_request(request) <==> match request {
            Request::Publish(p) => {
                &&& publish_rest(p).len() <= usize::MAX
                &&& p.qos == QoS::AtMostOnce || {
                    let k = if p.pkid == 0 { s.last_pkid + 1 } else { p.pkid as int };
                    k <= s.max_inflight && (s.outgoing_pub[k] is Some || s.inflight < 65_535)
                }
            },
            Request::PubRel(pubrel) => {
                let k = if pubrel.pkid == 0 { s.last_pkid + 1 } else { pubrel.pkid as int };
                k <= s.max_inflight && (s.outgoing_rel[k] is Some || s.inflight < 65_535)
            },
            Request::Subscribe(u) => {
                s.last_pkid < 65_535 && 2 + filters_bytes(u.filters@).len() <= usize::MAX
            },
            Request::Unsubscribe(u) => {
                s.last_pkid < 65_535 && 2 + topics_bytes(u.topics@).len() <= usize::MAX
            },
            Request::PingReq => s.collision is None || s.collision_ping_count < usize::MAX,
            Request::Disconnect => true,
            Request::PubAck(_) => false,
            Request::PubRec(_) => false,
            Request::PubComp(_) => false,
            Request::PingResp => false,
            Request::SubAck(_) => false,
            Request::UnsubAck(_) => false,
        },
{
}

/// Every packet can be taken in, but for one case: the count is full, and an
/// acknowledgement that nothing awaits lets go a publish with no place in it.
pub proof fn law_open_packets(s: Session, packet: Incoming)
    requires
        s.valid(),
    ensures
        s.inflight < 65_535 ==> s.accepts_packet(packet),
        s.collision is None ==> s.accepts_packet(packet),
        !(packet is PubAck || packet is PubComp) ==> s.accepts_packet(packet),
        packet matches Incoming::PubAck(a) ==> (s.accepts_packet(packet) <==> !waits(s, a.pkid) || holds_publish(
            s,
            a.pkid,
        ) || s.inflight < 65_535),
        packet matches Incoming::PubComp(a) ==> (s.accepts_packet(packet) <==> !waits(s, a.pkid) || holds_publish(
            s,
            a.pkid,
        ) || holds_release(s, a.pkid) || s.inflight < 65_535 || publish_rest(s.collision->0).len() > MAX_REMAINING),
{
}

// Requests

/// A QoS 0 publish is written and told, and otherwise forgotten. One that is
/// too long leaves its first byte.
pub proof fn law_publish_at_most_once(s: Session, p: Publish)
    requires
        s.valid(),
        p.qos == QoS::AtMostOnce,
    ensures
        ({
            let done = s.request(Request::Publish(p));
            if publish_rest(p).len() <= MAX_REMAINING {
                &&& done.result is Ok
                &&& done.session == (Session {
                    write: s.write + framed(publish_first(p), publish_rest(p)),
                    events: s.events.push(Event::Outgoing(Outgoing::Publish(p.pkid))),
                    ..s
                })
            } else {
                &&& done.result == too_long()
                &&& done.session == (Session { write: s.write.push(publish_first(p)), ..s })
            }
        }),
{
}

/// A QoS 1 or 2 publish gets a packet id: its own, or the next, which then is
/// used up. Where a publish holds that id, the new one waits and nothing is
/// written. Else it is held under the id, counted, written and told; one that
/// is too long is held and counted all the same.
pub proof fn law_publish_acknowledged(s: Session, p: Publish)
    requires
        s.valid(),
        s.accepts_request(Request::Publish(p)),
        p.qos != QoS::AtMostOnce,
    ensures
        ({
            let k = if p.pkid == 0 {
                (s.last_pkid + 1) as u16
            } else {
                p.pkid
            };
            let last_pkid = if p.pkid == 0 {
                (s.last_pkid + 1) % s.max_inflight
            } else {
                s.last_pkid
            };
            let q = Publish { pkid: k, ..p };
            let done = s.request(Request::Publish(p));
            &&& 1 <= k <= s.max_inflight
            &&& if s.outgoing_pub[k as int] is Some {
                &&& done.result is Ok
                &&& done.session == (Session {
                    last_pkid,
                    collision: Some(q),
                    events: s.events.push(Event::Outgoing(Outgoing::AwaitAck(k))),
                    ..s
                })
            } else if publish_rest(q).len() <= MAX_REMAINING {
                &&& done.result is Ok
                &&& done.session == (Session {
                    last_pkid,
                    outgoing_pub: s.outgoing_pub.update(k as int, Some(q)),
                    inflight: s.inflight + 1,
                    write: s.write + framed(publish_first(q), publish_rest(q)),
                    events: s.events.push(Event::Outgoing(Outgoing::Publish(k))),
                    ..s
                })
            } else {
                &&& done.result == too_long()
                &&& done.session == (Session {
                    last_pkid,
                    outgoing_pub: s.outgoing_pub.update(k as int, Some(q)),
                    inflight: s.inflight + 1,
                    write: s.write.push(publish_first(q)),
                    ..s
                })
            }
        }),
{
    lemma_next_id(s);
}

/// A release is recorded under its packet id, or the next for 0, written and
/// told. It is counted where none is recorded under that id.
pub proof fn law_release_request(s: Session, pubrel: PubRel)
    requires
        s.valid(),
        s.accepts_request(Request::PubRel(pubrel)),
    ensures
        ({
            let k = if pubrel.pkid == 0 {
                (s.last_pkid + 1) as u16
            } else {
                pubrel.pkid
            };
            let last_pkid = if pubrel.pkid == 0 {
                (s.last_pkid + 1) % s.max_inflight
            } else {
                s.last_pkid
            };
            let done = s.request(Request::PubRel(pubrel));
            &&& 1 <= k <= s.max_inflight
            &&& done.result is Ok
            &&& done.session == (Session {
                last_pkid,
                outgoing_rel: s.outgoing_rel.update(k as int, Some(k)),
                inflight: s.inflight + (if s.outgoing_rel[k as int] is None { 1int } else { 0 }),
                write: s.write + id_bytes(0x62, k),
                events: s.events.push(Event::Outgoing(Outgoing::PubRel(k))),
                ..s
            })
        }),
{
    lemma_next_id(s);
    lemma_id_frame(0x62, pubrel.pkid);
    lemma_id_frame(0x62, (s.last_pkid + 1) as u16);
}

/// A subscription goes out under the next packet id, whatever id it came with:
/// the bytes carry that id and the filters, and the user is told it. Nothing
/// but bytes, notices and the ids to come changes.
pub proof fn law_subscribe(s: Session, subscribe: Subscribe)
    requires
        s.valid(),
        s.accepts_request(Request::Subscribe(subscribe)),
    ensures
        ({
            let k = (s.last_pkid + 1) as u16;
            let rest = seq![(k / 256) as u8, (k % 256) as u8] + filters_bytes(subscribe.filters@);
            let last_pkid = if s.max_inflight == 0 {
                s.last_pkid + 1
            } else {
                (s.last_pkid + 1) % s.max_inflight
            };
            let done = s.request(Request::Subscribe(subscribe));
            &&& k == s.last_pkid + 1
            &&& if rest.len() <= MAX_REMAINING {
                &&& done.result is Ok
                &&& done.session == (Session {
                    last_pkid,
                    write: s.write + framed(0x82, rest),
                    events: s.events.push(Event::Outgoing(Outgoing::Subscribe(k))),
                    ..s
                })
            } else {
                &&& done.result == too_long()
                &&& done.session == (Session { last_pkid, write: s.write.push(0x82u8), ..s })
            }
        }),
{
    let k = (s.last_pkid + 1) as u16;
    if s.max_inflight > 0 {
        lemma_next_id(s);
    }
    assert(be16(k as int) =~= seq![(k / 256) as u8, (k % 256) as u8]);
    assert(subscribe_rest(Subscribe { pkid: k, ..subscribe }) =~= be16(k as int) + filters_bytes(
        subscribe.filters@,
    ));
}

/// An unsubscribe request goes out under the next packet id, whatever id it
/// came with: the bytes carry that id and the topics, and the user is told it.
/// Nothing but bytes, notices and the ids to come changes.
pub proof fn law_unsubscribe(s: Session, unsubscribe: Unsubscribe)
    requires
        s.valid(),
        s.accepts_request(Request::Unsubscribe(unsubscribe)),
    ensures
        ({
            let k = (s.last_pkid + 1) as u16;
            let rest = seq![(k / 256) as u8, (k % 256) as u8] + topics_bytes(unsubscribe.topics@);
            let last_pkid = if s.max_inflight == 0 {
                s.last_pkid + 1
            } else {
                (s.last_pkid + 1) % s.max_inflight
            };
            let done = s.request(Request::Unsubscribe(unsubscribe));
            &&& k == s.last_pkid + 1
            &&& if rest.len() <= MAX_REMAINING {
                &&& done.result is Ok
                &&& done.session == (Session {
                    last_pkid,
                    write: s.write + framed(0xA2, rest),
                    events: s.events.push(Event::Outgoing(Outgoing::Unsubscribe(k))),
                    ..s
                })
            } else {
                &&& done.result == too_long()
                &&& done.session == (Session { last_pkid, write: s.write.push(0xA2u8), ..s })
            }
        }),
{
    let k = (s.last_pkid + 1) as u16;
    if s.max_inflight > 0 {
        lemma_next_id(s);
    }
    assert(be16(k as int) =~= seq![(k / 256) as u8, (k % 256) as u8]);
    assert(unsubscribe_rest(Unsubscribe { pkid: k, ..unsubscribe }) =~= be16(k as int) + topics_bytes(
        unsubscribe.topics@,
    ));
}

/// A ping is written, told and awaited, unless the one before is not answered.
/// While a publish waits, pings are counted, and from the second on they fail.
pub proof fn law_ping(s: Session)
    requires
        s.valid(),
        s.accepts_request(Request::PingReq),
    ensures
        ({
            let collision_ping_count = s.collision_ping_count + (if s.collision is Some { 1int } else { 0 });
            let done = s.request(Request::PingReq);
            if s.collision is Some && s.collision_ping_count >= 1 {
                &&& done.result == Err::<(), StateError>(StateError::CollisionTimeout)
                &&& done.session == (Session { collision_ping_count, ..s })
            } else if s.await_pingresp {
                &&& done.result == Err::<(), StateError>(StateError::AwaitPingResp)
                &&& done.session == (Session { collision_ping_count, ..s })
            } else {
                &&& done.result is Ok
                &&& done.session == (Session {
                    await_pingresp: true,
                    collision_ping_count,
                    write: s.write + seq![0xC0u8, 0u8],
                    events: s.events.push(Event::Outgoing(Outgoing::PingReq)),
                    ..s
                })
            }
        }),
{
    lemma_empty_frame(0xC0);
}

/// A disconnect packet is written and told; nothing else changes.
pub proof fn law_disconnect(s: Session)
    requires
        s.valid(),
    ensures
        s.request(Request::Disconnect).result is Ok,
        s.request(Request::Disconnect).session == (Session {
            write: s.write + seq![0xE0u8, 0u8],
            events: s.events.push(Event::Outgoing(Outgoing::Disconnect)),
            ..s
        }),
{
    lemma_empty_frame(0xE0);
}

/// The publishes of a list as they are sent from a new session: under the
/// packet ids 1, 2, 3 and so on.
pub open spec fn numbered_from_one(ps: Seq<Publish>, i: int) -> Publish {
    Publish { pkid: (i + 1) as u16, ..ps[i] }
}

/// From a new session, as many unnumbered QoS 1 and 2 publishes as the limit
/// allows are served without a collision: they go out under the packet ids 1,
/// 2, 3 and so on, and each is held under its id and counted.
pub proof fn law_limit_is_reached_without_collision(s: Session, ps: Seq<Publish>)
    requires
        s.valid(),
        s.is_fresh(s.max_inflight),
        ps.len() <= s.max_inflight,
        forall|i: int|
            0 <= i < ps.len() ==> (#[trigger] ps[i]).pkid == 0 && ps[i].qos != QoS::AtMostOnce && publish_rest(
                ps[i],
            ).len() <= MAX_REMAINING,
    ensures
        ({
            let requests = ps.map_values(|p: Publish| Request::Publish(p));
            let t = after_requests(s, requests);
            &&& accepts_requests(s, requests)
            &&& t.inflight == ps.len()
            &&& t.collision is None
            &&& t.last_pkid == (if ps.len() == s.max_inflight { 0 } else { ps.len() as int })
            &&& t.outgoing_rel == s.outgoing_rel
            &&& t.outgoing_pub.len() == s.max_inflight + 1
            &&& forall|i: int|
                0 <= i <= s.max_inflight ==> #[trigger] t.outgoing_pub[i] == (if 1 <= i <= ps.len() {
                    Some(numbered_from_one(ps, i - 1))
                } else {
                    None
                })
            &&& t.events == Seq::new(ps.len(), |i: int| Event::Outgoing(Outgoing::Publish((i + 1) as u16)))
            &&& ps.len() > 0 ==> after_requests(s, requests.drop_last()).write + framed(
                publish_first(numbered_from_one(ps, ps.len() - 1)),
                publish_rest(numbered_from_one(ps, ps.len() - 1)),
            ) == t.write
        }),
    decreases ps.len(),
{
    let requests = ps.map_values(|p: Publish| Request::Publish(p));
    let t = after_requests(s, requests);
    let n = ps.len() as int;
    if n == 0 {
        law_new_session(s, s.max_inflight);
        assert(t.events =~= Seq::new(ps.len(), |i: int| Event::Outgoing(Outgoing::Publish((i + 1) as u16))));
    } else {
        let fewer = ps.drop_last();
        law_limit_is_reached_without_collision(s, fewer);
        assert(fewer.map_values(|p: Publish| Request::Publish(p)) =~= requests.drop_last());
        let u = after_requests(s, requests.drop_last());
        lemma_after_requests_valid(s, requests.drop_last());
        let p = ps[n - 1];
        let q = numbered_from_one(ps, n - 1);
        assert(requests.last() == Request::Publish(p));
        assert(u.last_pkid == n - 1);
        assert(u.max_inflight == s.max_inflight);
        assert(publish_rest(q).len() == publish_rest(p).len());
        assert(u.accepts_request(Request::Publish(p)));
        law_publish_acknowledged(u, p);
        lemma_next_id(u);
        assert forall|i: int| 0 <= i <= s.max_inflight implies #[trigger] t.outgoing_pub[i] == (if 1 <= i <= n {
            Some(numbered_from_one(ps, i - 1))
        } else {
            None
        }) by {
            assert(u.outgoing_pub[i] == (if 1 <= i <= n - 1 {
                Some(numbered_from_one(fewer, i - 1))
            } else {
                None
            }));
        }
        assert(t.events =~= Seq::new(ps.len(), |i: int| Event::Outgoing(Outgoing::Publish((i + 1) as u16))));
    }
}

proof fn lemma_after_requests_valid(s: Session, requests: Seq<Request>)
    requires
        s.valid(),
        accepts_requests(s, requests),
    ensures
        after_requests(s, requests).valid(),
        after_requests(s, requests).max_inflight == s.max_inflight,
    decreases requests.len(),
{
    if requests.len() > 0 {
        lemma_after_requests_valid(s, requests.drop_last());
        law_requests_keep_valid(after_requests(s, requests.drop_last()), requests.last());
    }
}

/// Requests that take the next packet id use it up, and no other request does:
/// afterwards the id handed out last is one further on, round the limit.
pub proof fn law_requests_use_up_ids(s: Session, request: Request)
    requires
        s.valid(),
        s.accepts_request(request),
        s.max_inflight > 0,
    ensures
        ({
            let takes_next = match request {
                Request::Publish(p) => p.pkid == 0 && p.qos != QoS::AtMostOnce,
                Request::PubRel(pubrel) => pubrel.pkid == 0,
                Request::Subscribe(_) => true,
                Request::Unsubscribe(_) => true,
                _ => false,
            };
            s.request(request).session.last_pkid == (if takes_next {
                (s.last_pkid + 1) % s.max_inflight
            } else {
                s.last_pkid
            })
        }),
{
    lemma_next_id(s);
}

// Packets

/// What comes in reaches the user: a packet that is handled well is the last
/// notice, after those from before and at most one of what was sent on account
/// of it. A packet that is an error is not passed on.
pub proof fn law_packets_reach_user(s: Session, packet: Incoming)
    requires
        s.valid(),
        s.accepts_packet(packet),
    ensures
        ({
            let done = s.packet(packet);
            let n = s.events.len() as int;
            let m = done.session.events.len() as int;
            &&& s.events.is_prefix_of(done.session.events)
            &&& done.result is Ok ==> {
                &&& done.session.events.last() == Event::Incoming(packet)
                &&& m == n + 1 || m == n + 2 && done.session.events[n] is Outgoing
            }
            &&& done.result is Err ==> m == n || m == n + 1 && done.session.events[n] is Outgoing
        }),
{
}

/// A publish that comes in is answered by its level and passed on: nothing for
/// QoS 0, an acknowledgement of its packet id for QoS 1, a receipt for QoS 2,
/// whose id is remembered. Nothing else changes.
pub proof fn law_incoming_publish(s: Session, p: Publish)
    requires
        s.valid(),
    ensures
        ({
            let packet = Incoming::Publish(p);
            let done = s.packet(packet);
            &&& done.result is Ok
            &&& done.session == (match p.qos {
                QoS::AtMostOnce => Session { events: s.events.push(Event::Incoming(packet)), ..s },
                QoS::AtLeastOnce => Session {
                    write: s.write + id_bytes(0x40, p.pkid),
                    events: s.events.push(Event::Outgoing(Outgoing::PubAck(p.pkid))).push(
                        Event::Incoming(packet),
                    ),
                    ..s
                },
                QoS::ExactlyOnce => Session {
                    incoming_pub: s.incoming_pub.update(p.pkid as int, Some(p.pkid)),
                    write: s.write + id_bytes(0x50, p.pkid),
                    events: s.events.push(Event::Outgoing(Outgoing::PubRec(p.pkid))).push(
                        Event::Incoming(packet),
                    ),
                    ..s
                },
            })
        }),
{
    lemma_id_frame(0x40, p.pkid);
    lemma_id_frame(0x50, p.pkid);
}

/// An acknowledgement frees the slot of its packet id and its place in the
/// count, and is passed on. Where a publish waits for the id, that one is held
/// there, counted, written and told. Where the slot was free, the result is an
/// error; where nothing waits either, nothing changes.
pub proof fn law_incoming_ack(s: Session, k: u16)
    requires
        s.valid(),
        s.accepts_packet(Incoming::PubAck(PubAck { pkid: k })),
    ensures
        ({
            let packet = Incoming::PubAck(PubAck { pkid: k });
            let held = holds_publish(s, k);
            let p = s.collision->0;
            let done = s.packet(packet);
            if !waits(s, k) {
                if held {
                    &&& done.result is Ok
                    &&& done.session == (Session {
                        outgoing_pub: s.outgoing_pub.update(k as int, None),
                        inflight: s.inflight - 1,
                        events: s.events.push(Event::Incoming(packet)),
                        ..s
                    })
                } else {
                    &&& done.result == not_asked_for(k)
                    &&& done.session == s
                }
            } else {
                let inflight = s.inflight + (if held { 0int } else { 1 });
                let told = s.events.push(Event::Outgoing(Outgoing::Publish(k)));
                if publish_rest(p).len() <= MAX_REMAINING {
                    &&& done.result == (if held { Ok::<(), StateError>(()) } else { not_asked_for(k) })
                    &&& done.session == (Session {
                        collision: None,
                        collision_ping_count: 0,
                        outgoing_pub: s.outgoing_pub.update(k as int, Some(p)),
                        inflight,
                        write: s.write + framed(publish_first(p), publish_rest(p)),
                        events: if held {
                            told.push(Event::Incoming(packet))
                        } else {
                            told
                        },
                        ..s
                    })
                } else {
                    &&& done.result == too_long()
                    &&& done.session == (Session {
                        collision: None,
                        outgoing_pub: s.outgoing_pub.update(k as int, Some(p)),
                        inflight,
                        write: s.write.push(publish_first(p)),
                        ..s
                    })
                }
            }
        }),
{
    if k <= s.max_inflight {
        assert(s.outgoing_pub.update(k as int, None).update(k as int, s.collision) =~= s.outgoing_pub.update(
            k as int,
            s.collision,
        ));
        if !holds_publish(s, k) {
            assert(s.outgoing_pub.update(k as int, None) =~= s.outgoing_pub);
        }
    }
}

/// A receipt turns the publish held under its packet id into a release, which
/// is written and told; the count stays. Without such a publish it is an error
/// and nothing changes.
pub proof fn law_incoming_receipt(s: Session, k: u16)
    requires
        s.valid(),
    ensures
        ({
            let packet = Incoming::PubRec(PubRec { pkid: k });
            let done = s.packet(packet);
            if holds_publish(s, k) {
                &&& done.result is Ok
                &&& done.session == (Session {
                    outgoing_pub: s.outgoing_pub.update(k as int, None),
                    outgoing_rel: s.outgoing_rel.update(k as int, Some(k)),
                    write: s.write + id_bytes(0x62, k),
                    events: s.events.push(Event::Outgoing(Outgoing::PubRel(k))).push(Event::Incoming(packet)),
                    ..s
                })
            } else {
                &&& done.result == not_asked_for(k)
                &&& done.session == s
            }
        }),
{
    lemma_id_frame(0x62, k);
}

/// A release is answered with a completion, which is written and told, and its
/// packet id is forgotten. Without a publish remembered under the id it is an
/// error and nothing changes.
pub proof fn law_incoming_release(s: Session, k: u16)
    requires
        s.valid(),
    ensures
        ({
            let packet = Incoming::PubRel(PubRel { pkid: k });
            let done = s.packet(packet);
            if s.incoming_pub[k as int] is Some {
                &&& done.result is Ok
                &&& done.session == (Session {
                    incoming_pub: s.incoming_pub.update(k as int, None),
                    write: s.write + id_bytes(0x70, k),
                    events: s.events.push(Event::Outgoing(Outgoing::PubComp(k))).push(Event::Incoming(packet)),
                    ..s
                })
            } else {
                &&& done.result == not_asked_for(k)
                &&& done.session == s
            }
        }),
{
    lemma_id_frame(0x70, k);
}

/// A completion frees the release recorded under its packet id and its place
/// in the count, and is passed on. Where a publish waits for the id, that one
/// is written and told, and where the slot of publishes is free, held and
/// counted; one too long to be written ends the matter. Where no release was
/// recorded, the result is an error; where nothing waits either, nothing
/// changes.
pub proof fn law_incoming_completion(s: Session, k: u16)
    requires
        s.valid(),
        s.accepts_packet(Incoming::PubComp(PubComp { pkid: k })),
    ensures
        ({
            let packet = Incoming::PubComp(PubComp { pkid: k });
            let released = holds_release(s, k);
            let free = !holds_publish(s, k);
            let p = s.collision->0;
            let done = s.packet(packet);
            if !waits(s, k) {
                if released {
                    &&& done.result is Ok
                    &&& done.session == (Session {
                        outgoing_rel: s.outgoing_rel.update(k as int, None),
                        inflight: s.inflight - 1,
                        events: s.events.push(Event::Incoming(packet)),
                        ..s
                    })
                } else {
                    &&& done.result == not_asked_for(k)
                    &&& done.session == s
                }
            } else if publish_rest(p).len() <= MAX_REMAINING {
                let told = s.events.push(Event::Outgoing(Outgoing::Publish(k)));
                &&& done.result == (if released { Ok::<(), StateError>(()) } else { not_asked_for(k) })
                &&& done.session == (Session {
                    collision: None,
                    collision_ping_count: 0,
                    outgoing_rel: s.outgoing_rel.update(k as int, None),
                    outgoing_pub: if free {
                        s.outgoing_pub.update(k as int, Some(p))
                    } else {
                        s.outgoing_pub
                    },
                    inflight: s.inflight - (if released { 1int } else { 0 }) + (if free { 1int } else { 0 }),
                    write: s.write + framed(publish_first(p), publish_rest(p)),
                    events: if released {
                        told.push(Event::Incoming(packet))
                    } else {
                        told
                    },
                    ..s
                })
            } else {
                &&& done.result == too_long()
                &&& done.session == (Session {
                    collision: None,
                    write: s.write.push(publish_first(p)),
                    ..s
                })
            }
        }),
{
    if k <= s.max_inflight && !holds_release(s, k) {
        assert(s.outgoing_rel.update(k as int, None) =~= s.outgoing_rel);
    }
}

/// The answer to a ping ends the wait for it; that and the acknowledgements of
/// subscriptions are passed on, and nothing else changes.
pub proof fn law_incoming_without_answer(s: Session, packet: Incoming)
    requires
        s.valid(),
        packet is PingResp || packet is SubAck || packet is UnsubAck,
    ensures
        s.packet(packet).result is Ok,
        s.packet(packet).session == (Session {
            await_pingresp: s.await_pingresp && !(packet is PingResp),
            events: s.events.push(Event::Incoming(packet)),
            ..s
        }),
{
}

/// A packet that only a broker gets, or that has its place before the session,
/// is refused and changes nothing.
pub proof fn law_incoming_refused(s: Session, packet: Incoming)
    requires
        s.valid(),
        packet is Connect || packet is ConnAck || packet is Subscribe || packet is Unsubscribe || packet is PingReq
            || packet is Disconnect,
    ensures
        s.packet(packet).result == Err::<(), StateError>(StateError::WrongPacket),
        s.packet(packet).session == s,
{
}

// New sessions and cleaning

/// A new session holds nothing, awaits nothing and has nothing to send or tell,
/// and hands out packet id 1 next.
pub proof fn law_new_session(s: Session, max_inflight: int)
    requires
        s.is_fresh(max_inflight),
        0 <= max_inflight <= u16::MAX,
    ensures
        s.max_inflight == max_inflight,
        !s.await_pingresp,
        s.collision_ping_count == 0,
        s.last_pkid == 0,
        s.inflight == 0,
        s.collision is None,
        s.events.len() == 0,
        s.write.len() == 0,
        s.outgoing_pub.len() == max_inflight + 1,
        s.outgoing_rel.len() == max_inflight + 1,
        s.incoming_pub.len() == 65_536,
        forall|i: int| 0 <= i <= max_inflight ==> (#[trigger] s.outgoing_pub[i]) is None,
        forall|i: int| 0 <= i <= max_inflight ==> (#[trigger] s.outgoing_rel[i]) is None,
        forall|i: int| 0 <= i < 65_536 ==> (#[trigger] s.incoming_pub[i]) is None,
{
}

/// Cleaning empties all tables and forgets the pings and the count. The packet
/// ids to come, a waiting publish, the notices, the bytes, the times and the
/// limit stay.
pub proof fn law_cleaning(s: Session)
    requires
        s.valid(),
    ensures
        ({
            let t = s.cleaned();
            &&& !t.await_pingresp
            &&& t.collision_ping_count == 0
            &&& t.inflight == 0
            &&& t.outgoing_pub.len() == s.outgoing_pub.len()
            &&& t.outgoing_rel.len() == s.outgoing_rel.len()
            &&& t.incoming_pub.len() == s.incoming_pub.len()
            &&& forall|i: int| 0 <= i < t.outgoing_pub.len() ==> (#[trigger] t.outgoing_pub[i]) is None
            &&& forall|i: int| 0 <= i < t.outgoing_rel.len() ==> (#[trigger] t.outgoing_rel[i]) is None
            &&& forall|i: int| 0 <= i < t.incoming_pub.len() ==> (#[trigger] t.incoming_pub[i]) is None
            &&& t.last_pkid == s.last_pkid
            &&& t.max_inflight == s.max_inflight
            &&& t.collision == s.collision
            &&& t.events == s.events
            &&& t.write == s.write
            &&& t.last_incoming == s.last_incoming
            &&& t.last_outgoing == s.last_outgoing
        }),
{
}

/// On the connection after a cleaning, the first ping goes out, whatever was
/// awaited before, and every acknowledgement of what went before is an error.
pub proof fn law_cleaning_starts_anew(s: Session, k: u16)
    requires
        s.valid(),
    ensures
        ({
            let t = s.cleaned();
            &&& t.accepts_request(Request::PingReq)
            &&& t.request(Request::PingReq).result is Ok
            &&& t.request(Request::PingReq).session.write == s.write + seq![0xC0u8, 0u8]
            &&& t.packet(Incoming::PubRec(PubRec { pkid: k })).result == not_asked_for(k)
            &&& t.packet(Incoming::PubRel(PubRel { pkid: k })).result == not_asked_for(k)
            &&& !waits(s, k) ==> t.packet(Incoming::PubAck(PubAck { pkid: k })).result == not_asked_for(k)
            &&& !waits(s, k) ==> t.packet(Incoming::PubComp(PubComp { pkid: k })).result == not_asked_for(k)
        }),
{
    law_cleaning_keeps_valid(s);
    let t = s.cleaned();
    law_ping(t);
    law_incoming_receipt(t, k);
    law_incoming_release(t, k);
    law_incoming_ack(t, k);
    law_incoming_completion(t, k);
}

/// Where a request stands among those that a cleaning returns: the publishes
/// by packet id, then the releases by packet id.
pub open spec fn place(request: Request) -> int {
    match request {
        Request::Publish(p) => p.pkid as int,
        Request::PubRel(pubrel) => 65_536 + pubrel.pkid,
        _ => -1,
    }
}

/// Cleaning returns every publish and every release that is held, and nothing
/// else: the publishes in the order of their packet ids, then the releases in
/// the order of theirs, each once.
pub proof fn law_pending_is_what_is_held(s: Session)
    requires
        s.valid(),
    ensures
        forall|i: int|
            0 <= i <= s.max_inflight && (#[trigger] s.outgoing_pub[i]) is Some ==> s.pending().contains(
                Request::Publish(s.outgoing_pub[i]->0),
            ),
        forall|i: int|
            0 <= i <= s.max_inflight && (#[trigger] s.outgoing_rel[i]) is Some ==> s.pending().contains(
                Request::PubRel(PubRel { pkid: i as u16 }),
            ),
        forall|a: int|
            0 <= a < s.pending().len() ==> match #[trigger] s.pending()[a] {
                Request::Publish(p) => p.pkid <= s.max_inflight && s.outgoing_pub[p.pkid as int] == Some(p),
                Request::PubRel(r) => r.pkid <= s.max_inflight && s.outgoing_rel[r.pkid as int] == Some(r.pkid),
                _ => false,
            },
        forall|a: int, b: int|
            0 <= a < b < s.pending().len() ==> place(#[trigger] s.pending()[a]) < place(#[trigger] s.pending()[b]),
{
    let pubs = s.outgoing_pub;
    let rels = s.outgoing_rel;
    let x = held_publishes(pubs);
    let y = held_releases(rels);
    lemma_publishes_in_order(s, pubs.len() as int);
    lemma_releases_in_order(s, rels.len() as int);
    assert(pubs.take(pubs.len() as int) =~= pubs);
    assert(rels.take(rels.len() as int) =~= rels);
    assert(s.pending() =~= x + y);
    assert forall|i: int| 0 <= i <= s.max_inflight && (#[trigger] pubs[i]) is Some implies s.pending().contains(
        Request::Publish(pubs[i]->0),
    ) by {
        let a = choose|a: int| 0 <= a < x.len() && #[trigger] x[a] == Request::Publish(pubs[i]->0);
        assert(s.pending()[a] == Request::Publish(pubs[i]->0));
    }
    assert forall|i: int| 0 <= i <= s.max_inflight && (#[trigger] rels[i]) is Some implies s.pending().contains(
        Request::PubRel(PubRel { pkid: i as u16 }),
    ) by {
        let a = choose|a: int|
            0 <= a < y.len() && #[trigger] y[a] == Request::PubRel(PubRel { pkid: rels[i]->0 });
        assert(s.pending()[x.len() + a] == Request::PubRel(PubRel { pkid: i as u16 }));
    }
}

proof fn lemma_publishes_in_order(s: Session, i: int)
    requires
        s.valid(),
        0 <= i <= s.outgoing_pub.len(),
    ensures
        ({
            let x = held_publishes(s.outgoing_pub.take(i));
            &&& forall|j: int|
                0 <= j < i && (#[trigger] s.outgoing_pub[j]) is Some ==> exists|a: int|
                    0 <= a < x.len() && #[trigger] x[a] == Request::Publish(s.outgoing_pub[j]->0)
            &&& forall|a: int|
                0 <= a < x.len() ==> (#[trigger] x[a]) is Publish && x[a]->Publish_0.pkid < i
                    && s.outgoing_pub[x[a]->Publish_0.pkid as int] == Some(x[a]->Publish_0)
            &&& forall|a: int, b: int|
                0 <= a < b < x.len() ==> place(#[trigger] x[a]) < place(#[trigger] x[b])
        }),
    decreases i,
{
    let slots = s.outgoing_pub;
    let x = held_publishes(slots.take(i));
    if i == 0 {
        reveal(Seq::filter);
        assert(slots.take(0) =~= Seq::<Option<Publish>>::empty());
    } else {
        lemma_publishes_in_order(s, i - 1);
        lemma_held_publishes_step(slots, i - 1);
        let w = held_publishes(slots.take(i - 1));
        assert forall|j: int| 0 <= j < i && (#[trigger] slots[j]) is Some implies exists|a: int|
            0 <= a < x.len() && #[trigger] x[a] == Request::Publish(slots[j]->0) by {
            if j < i - 1 {
                let a = choose|a: int| 0 <= a < w.len() && #[trigger] w[a] == Request::Publish(slots[j]->0);
                assert(x[a] == Request::Publish(slots[j]->0));
            } else {
                assert(x[w.len() as int] == Request::Publish(slots[j]->0));
            }
        }
    }
}

proof fn lemma_releases_in_order(s: Session, i: int)
    requires
        s.valid(),
        0 <= i <= s.outgoing_rel.len(),
    ensures
        ({
            let y = held_releases(s.outgoing_rel.take(i));
            &&& forall|j: int|
                0 <= j < i && (#[trigger] s.outgoing_rel[j]) is Some ==> exists|a: int|
                    0 <= a < y.len() && #[trigger] y[a] == Request::PubRel(PubRel { pkid: s.outgoing_rel[j]->0 })
            &&& forall|a: int|
                0 <= a < y.len() ==> (#[trigger] y[a]) is PubRel && y[a]->PubRel_0.pkid < i
                    && s.outgoing_rel[y[a]->PubRel_0.pkid as int] == Some(y[a]->PubRel_0.pkid)
            &&& forall|a: int, b: int|
                0 <= a < b < y.len() ==> place(#[trigger] y[a]) < place(#[trigger] y[b])
        }),
    decreases i,
{
    let slots = s.outgoing_rel;
    let y = held_releases(slots.take(i));
    if i == 0 {
        reveal(Seq::filter);
        assert(slots.take(0) =~= Seq::<Option<u16>>::empty());
    } else {
        lemma_releases_in_order(s, i - 1);
        lemma_held_releases_step(slots, i - 1);
        let w = held_releases(slots.take(i - 1));
        assert forall|j: int| 0 <= j < i && (#[trigger] slots[j]) is Some implies exists|a: int|
            0 <= a < y.len() && #[trigger] y[a] == Request::PubRel(PubRel { pkid: slots[j]->0 }) by {
            if j < i - 1 {
                let a = choose|a: int|
                    0 <= a < w.len() && #[trigger] w[a] == Request::PubRel(PubRel { pkid: slots[j]->0 });
                assert(y[a] == Request::PubRel(PubRel { pkid: slots[j]->0 }));
            } else {
                assert(y[w.len() as int] == Request::PubRel(PubRel { pkid: slots[j]->0 }));
            }
        }
    }
}

} // verus!
