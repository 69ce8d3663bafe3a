//! What holds of a session across operations.

use vstd::prelude::*;

use crate::error::StateError;
use crate::packet::{Event, Incoming, Outgoing, PubAck, PubComp, PubRec, PubRel, Publish, QoS, Request};
use crate::session::{
    empty_slots, held_publishes, held_releases, lemma_held_publishes_step, lemma_held_releases_step,
    lemma_occupied_bound, lemma_occupied_empty, lemma_occupied_update, numbered, occupied, with_pkid,
    Session,
};
use crate::wire::{framed, id_frame, publish_first, publish_rest, MAX_REMAINING};

verus! {

// Packet ids

/// The session after `n` packet ids are handed out.
pub open spec fn after_pkids(s: Session, n: nat) -> Session
    decreases n,
{
    if n == 0 {
        s
    } else {
        after_pkids(s, (n - 1) as nat).advance_pkid()
    }
}

/// The packet id handed out after `n` others.
pub open spec fn nth_pkid(s: Session, n: int) -> int {
    after_pkids(s, n as nat).pkid_for(0)
}

/// Packet ids are incremented till `max_inflight` and start again at 1 after
/// that: counted from a session whose next id is 1, id number `n` (from 0) is
/// `n % max_inflight + 1`. Nothing else changes.
pub proof fn law_packet_ids_cycle(s: Session, n: nat)
    requires
        s.valid(),
        s.max_inflight > 0,
    ensures
        after_pkids(s, n) == (Session { last_pkid: (s.last_pkid + n) % s.max_inflight, ..s }),
        nth_pkid(s, n as int) == (s.last_pkid + n) % s.max_inflight + 1,
        1 <= nth_pkid(s, n as int) <= s.max_inflight,
    decreases n,
{
    let m = s.max_inflight;
    vstd::arithmetic::div_mod::lemma_mod_bound(s.last_pkid + n, m);
    if n == 0 {
        vstd::arithmetic::div_mod::lemma_small_mod(s.last_pkid as nat, m as nat);
    } else {
        law_packet_ids_cycle(s, (n - 1) as nat);
        let before = s.last_pkid + n - 1;
        let k = before % m;
        vstd::arithmetic::div_mod::lemma_mod_bound(before, m);
        vstd::arithmetic::div_mod::lemma_add_mod_noop(before, 1, m);
        if k + 1 == m {
            assert((before + 1) % m == 0) by {
                vstd::arithmetic::div_mod::lemma_mod_self_0(m);
                if m == 1 {
                    assert((before + 1) % 1 == 0);
                } else {
                    vstd::arithmetic::div_mod::lemma_small_mod(1, m as nat);
                }
            }
        } else {
            vstd::arithmetic::div_mod::lemma_small_mod((k + 1) as nat, m as nat);
            vstd::arithmetic::div_mod::lemma_small_mod(1, m as nat);
        }
    }
}

/// Whether packet id `k` is among the next `max_inflight` ids.
pub open spec fn handed_out(s: Session, k: int) -> bool {
    exists|i: int| 0 <= i < s.max_inflight && #[trigger] nth_pkid(s, i) == k
}

/// In a round of `max_inflight` packet ids every id from 1 to `max_inflight`
/// is handed out once, and the session ends as it began.
pub proof fn law_packet_ids_round(s: Session)
    requires
        s.valid(),
        s.max_inflight > 0,
    ensures
        forall|i: int, j: int|
            0 <= i < j < s.max_inflight ==> #[trigger] nth_pkid(s, i) != #[trigger] nth_pkid(s, j),
        forall|k: int| 1 <= k <= s.max_inflight ==> #[trigger] handed_out(s, k),
        after_pkids(s, s.max_inflight as nat) == s,
{
    let m = s.max_inflight;
    assert forall|i: int| 0 <= i <= m implies #[trigger] nth_pkid(s, i) == (if s.last_pkid + i < m {
        s.last_pkid + i + 1
    } else {
        s.last_pkid + i - m + 1
    }) by {
        lemma_nth_pkid(s, i);
    }
    assert forall|k: int| 1 <= k <= m implies #[trigger] handed_out(s, k) by {
        let i = if k > s.last_pkid {
            k - 1 - s.last_pkid
        } else {
            k - 1 - s.last_pkid + m
        };
        assert(nth_pkid(s, i) == k);
    }
    law_packet_ids_cycle(s, m as nat);
    lemma_nth_pkid(s, m);
}

proof fn lemma_nth_pkid(s: Session, i: int)
    requires
        s.valid(),
        0 <= i <= s.max_inflight,
        s.max_inflight > 0,
    ensures
        nth_pkid(s, i) == (if s.last_pkid + i < s.max_inflight {
            s.last_pkid + i + 1
        } else {
            s.last_pkid + i - s.max_inflight + 1
        }),
{
    let m = s.max_inflight;
    let x = s.last_pkid + i;
    law_packet_ids_cycle(s, i as nat);
    if x < m {
        vstd::arithmetic::div_mod::lemma_small_mod(x as nat, m as nat);
    } else {
        vstd::arithmetic::div_mod::lemma_mod_sub_multiples_vanish(x, m);
        vstd::arithmetic::div_mod::lemma_small_mod((x - m) as nat, m as nat);
    }
}

// Validity

/// Whether a notification names a packet id that the session hands out.
pub open spec fn names_valid_id(e: Event, max_inflight: int) -> bool {
    match e {
        Event::Outgoing(Outgoing::Publish(k)) => 1 <= k <= max_inflight,
        Event::Outgoing(Outgoing::AwaitAck(k)) => 1 <= k <= max_inflight,
        Event::Outgoing(Outgoing::PubRel(k)) => 1 <= k <= max_inflight,
        Event::Outgoing(Outgoing::Subscribe(k)) => 1 <= k <= max_inflight,
        Event::Outgoing(Outgoing::Unsubscribe(k)) => 1 <= k <= max_inflight,
        _ => false,
    }
}

/// Whether a request is served under a packet id.
pub open spec fn takes_id(request: Request) -> bool {
    match request {
        Request::Publish(p) => p.qos != QoS::AtMostOnce,
        Request::PubRel(_) => true,
        Request::Subscribe(_) => true,
        Request::Unsubscribe(_) => true,
        _ => false,
    }
}

/// A new session is valid.
pub proof fn law_fresh_is_valid(s: Session, max_inflight: int)
    requires
        0 <= max_inflight <= u16::MAX,
        s.is_fresh(max_inflight),
    ensures
        s.valid(),
{
    lemma_occupied_empty::<Publish>((max_inflight + 1) as nat);
    lemma_occupied_empty::<u16>((max_inflight + 1) as nat);
}

/// Requests keep a session valid, whether they are served or not, and leave
/// alone what came in. The packet id of one that is served is never 0 and
/// never above the limit, where the limit allows any.
pub proof fn law_requests_keep_valid(s: Session, request: Request)
    requires
        s.valid(),
        s.accepts_request(request),
    ensures
        ({
            let done = s.request(request);
            &&& done.session.valid()
            &&& done.session.incoming_pub == s.incoming_pub
            &&& done.session.max_inflight == s.max_inflight
            &&& done.result is Ok && takes_id(request) && s.max_inflight > 0 ==> names_valid_id(
                done.session.events.last(),
                s.max_inflight,
            )
        }),
{
    match request {
        Request::Publish(p) => {
            if p.qos != QoS::AtMostOnce {
                let q = with_pkid(p, s.pkid_for(p.pkid));
                assert(publish_rest(q).len() == publish_rest(p).len());
                assert(numbered(q));
                lemma_occupied_update(s.outgoing_pub, q.pkid as int, Some(q));
            }
        },
        Request::PubRel(pubrel) => {
            let pkid = s.pkid_for(pubrel.pkid) as u16;
            lemma_occupied_update(s.outgoing_rel, pkid as int, Some(pkid));
        },
        _ => {},
    }
}

/// Packets keep a session valid, whether they are errors or not.
#[verifier::spinoff_prover]
#[verifier::rlimit(60)]
pub proof fn law_packets_keep_valid(s: Session, packet: Incoming)
    requires
        s.valid(),
        s.accepts_packet(packet),
    ensures
        s.packet(packet).session.valid(),
{
    lemma_packet_moves_count(s, packet);
}

/// Cleaning keeps a session valid.
pub proof fn law_cleaning_keeps_valid(s: Session)
    requires
        s.valid(),
    ensures
        s.cleaned().valid(),
{
    lemma_occupied_empty::<Publish>(s.outgoing_pub.len());
    lemma_occupied_empty::<u16>(s.outgoing_rel.len());
}

/// A packet moves the count by as much as the tables, but for a receipt under
/// an id whose release is recorded already.
#[verifier::spinoff_prover]
#[verifier::rlimit(60)]
proof fn lemma_packet_moves_count(s: Session, packet: Incoming)
    requires
        s.valid(),
        s.accepts_packet(packet),
    ensures
        ({
            let t = s.packet(packet).session;
            let moved = occupied(t.outgoing_pub) + occupied(t.outgoing_rel) - occupied(s.outgoing_pub)
                - occupied(s.outgoing_rel);
            if packet matches Incoming::PubRec(a) && a.pkid <= s.max_inflight && s.outgoing_pub[a.pkid as int] is Some
                && s.outgoing_rel[a.pkid as int] is Some {
                t.inflight == s.inflight && moved == -1
            } else {
                t.inflight - s.inflight == moved
            }
        }),
{
    match packet {
        Incoming::PubAck(a) => {
            if a.pkid <= s.max_inflight {
                let i = a.pkid as int;
                let freed = s.outgoing_pub.update(i, None);
                lemma_occupied_update(s.outgoing_pub, i, None);
                if s.waiting_for(a.pkid) is Some {
                    lemma_occupied_update(freed, i, s.collision);
                }
            }
        },
        Incoming::PubRec(a) => {
            if a.pkid <= s.max_inflight {
                lemma_occupied_update(s.outgoing_pub, a.pkid as int, None);
                lemma_occupied_update(s.outgoing_rel, a.pkid as int, Some(a.pkid));
            }
        },
        Incoming::PubComp(a) => {
            if a.pkid <= s.max_inflight {
                lemma_occupied_update(s.outgoing_rel, a.pkid as int, None);
                if s.waiting_for(a.pkid) is Some {
                    lemma_occupied_update(s.outgoing_pub, a.pkid as int, s.collision);
                }
            }
        },
        _ => {},
    }
}

// Exchanges

/// A QoS 1 or 2 publish that finds its packet id free is held, counted and
/// written; its acknowledgement frees the id and takes it out of the count, so
/// that tables, count and collision are as they were.
pub proof fn law_ack_ends_publish(s: Session, p: Publish)
    requires
        s.valid(),
        s.accepts_request(Request::Publish(p)),
        p.qos != QoS::AtMostOnce,
        publish_rest(p).len() <= MAX_REMAINING,
        s.outgoing_pub[s.pkid_for(p.pkid)] is None,
        s.waiting_for(s.pkid_for(p.pkid) as u16) is None,
    ensures
        ({
            let pkid = s.pkid_for(p.pkid) as u16;
            let q = with_pkid(p, pkid as int);
            let sent = s.request(Request::Publish(p));
            let acked = sent.session.packet(Incoming::PubAck(PubAck { pkid }));
            &&& sent.result is Ok
            &&& sent.session.outgoing_pub[pkid as int] == Some(q)
            &&& sent.session.inflight == s.inflight + 1
            &&& sent.session.write == s.write + framed(publish_first(q), publish_rest(q))
            &&& sent.session.accepts_packet(Incoming::PubAck(PubAck { pkid }))
            &&& acked.result is Ok
            &&& acked.session.outgoing_pub == s.outgoing_pub
            &&& acked.session.outgoing_rel == s.outgoing_rel
            &&& acked.session.inflight == s.inflight
            &&& acked.session.collision == s.collision
            &&& acked.session.write == sent.session.write
        }),
{
    let pkid = s.pkid_for(p.pkid) as u16;
    let q = with_pkid(p, pkid as int);
    let sent = s.request(Request::Publish(p));
    assert(publish_rest(q).len() == publish_rest(p).len());
    let acked = sent.session.packet(Incoming::PubAck(PubAck { pkid }));
    assert(acked.session.outgoing_pub =~= s.outgoing_pub);
}

/// A QoS 2 publish leaves the count only when its exchange ends: its receipt
/// turns it into a release, which is written, and the completion frees both.
pub proof fn law_release_ends_publish(s: Session, p: Publish)
    requires
        s.valid(),
        s.accepts_request(Request::Publish(p)),
        p.qos != QoS::AtMostOnce,
        publish_rest(p).len() <= MAX_REMAINING,
        s.outgoing_pub[s.pkid_for(p.pkid)] is None,
        s.outgoing_rel[s.pkid_for(p.pkid)] is None,
        s.waiting_for(s.pkid_for(p.pkid) as u16) is None,
    ensures
        ({
            let pkid = s.pkid_for(p.pkid) as u16;
            let sent = s.request(Request::Publish(p));
            let received = sent.session.packet(Incoming::PubRec(PubRec { pkid }));
            let completed = received.session.packet(Incoming::PubComp(PubComp { pkid }));
            &&& sent.session.accepts_packet(Incoming::PubRec(PubRec { pkid }))
            &&& received.result is Ok
            &&& received.session.outgoing_pub == s.outgoing_pub
            &&& received.session.outgoing_rel == s.outgoing_rel.update(pkid as int, Some(pkid))
            &&& received.session.inflight == s.inflight + 1
            &&& received.session.write == sent.session.write + id_frame(0x62, pkid)
            &&& received.session.accepts_packet(Incoming::PubComp(PubComp { pkid }))
            &&& completed.result is Ok
            &&& completed.session.outgoing_pub == s.outgoing_pub
            &&& completed.session.outgoing_rel == s.outgoing_rel
            &&& completed.session.inflight == s.inflight
            &&& completed.session.write == received.session.write
        }),
{
    let pkid = s.pkid_for(p.pkid) as u16;
    let q = with_pkid(p, pkid as int);
    let sent = s.request(Request::Publish(p));
    assert(publish_rest(q).len() == publish_rest(p).len());
    let received = sent.session.packet(Incoming::PubRec(PubRec { pkid }));
    assert(received.session.outgoing_pub =~= s.outgoing_pub);
    let completed = received.session.packet(Incoming::PubComp(PubComp { pkid }));
    assert(completed.session.outgoing_rel =~= s.outgoing_rel);
}

/// An incoming QoS 2 publish is answered with a receipt and its release with a
/// completion, once: a second release is unsolicited and changes nothing.
pub proof fn law_release_is_answered_once(s: Session, p: Publish)
    requires
        s.valid(),
        p.qos == QoS::ExactlyOnce,
    ensures
        ({
            let release = Incoming::PubRel(PubRel { pkid: p.pkid });
            let taken = s.packet(Incoming::Publish(p));
            let released = taken.session.packet(release);
            let again = released.session.packet(release);
            &&& taken.result is Ok
            &&& taken.session.write == s.write + id_frame(0x50, p.pkid)
            &&& taken.session.incoming_pub[p.pkid as int] == Some(p.pkid)
            &&& released.result is Ok
            &&& released.session.write == taken.session.write + id_frame(0x70, p.pkid)
            &&& released.session.incoming_pub == s.incoming_pub.update(p.pkid as int, None)
            &&& again.result == Err::<(), StateError>(StateError::Unsolicited(p.pkid))
            &&& again.session == released.session
        }),
{
    let taken = s.packet(Incoming::Publish(p));
    let released = taken.session.packet(Incoming::PubRel(PubRel { pkid: p.pkid }));
    assert(released.session.incoming_pub =~= s.incoming_pub.update(p.pkid as int, None));
}

/// A QoS 2 publish that is delivered again is remembered once and answered
/// again.
pub proof fn law_redelivery_is_remembered_once(s: Session, p: Publish)
    requires
        s.valid(),
        p.qos == QoS::ExactlyOnce,
    ensures
        ({
            let first = s.packet(Incoming::Publish(p));
            let second = first.session.packet(Incoming::Publish(p));
            &&& first.result is Ok
            &&& first.session.incoming_pub == s.incoming_pub.update(p.pkid as int, Some(p.pkid))
            &&& second.result is Ok
            &&& second.session == (Session {
                write: first.session.write + id_frame(0x50, p.pkid),
                events: first.session.events.push(Event::Outgoing(Outgoing::PubRec(p.pkid))).push(
                    Event::Incoming(Incoming::Publish(p)),
                ),
                ..first.session
            })
            &&& first.session.incoming_publish(p).session.incoming_pub == first.session.incoming_pub
        }),
{
    let first = s.packet(Incoming::Publish(p));
    let second = first.session.packet(Incoming::Publish(p));
    assert(second.session.incoming_pub =~= first.session.incoming_pub);
}

/// The user gets every publish that comes in, after the notice of the answer
/// that its level calls for.
pub proof fn law_publish_reaches_user(s: Session, p: Publish)
    requires
        s.valid(),
    ensures
        s.packet(Incoming::Publish(p)).result is Ok,
        s.packet(Incoming::Publish(p)).session.events == s.events + (match p.qos {
            QoS::AtMostOnce => seq![],
            QoS::AtLeastOnce => seq![Event::Outgoing(Outgoing::PubAck(p.pkid))],
            QoS::ExactlyOnce => seq![Event::Outgoing(Outgoing::PubRec(p.pkid))],
        }).push(Event::Incoming(Incoming::Publish(p))),
{
    assert(s.packet(Incoming::Publish(p)).session.events =~= s.events + (match p.qos {
        QoS::AtMostOnce => seq![],
        QoS::AtLeastOnce => seq![Event::Outgoing(Outgoing::PubAck(p.pkid))],
        QoS::ExactlyOnce => seq![Event::Outgoing(Outgoing::PubRec(p.pkid))],
    }).push(Event::Incoming(Incoming::Publish(p))));
}

// Collisions

/// A missing acknowledgement shows when its packet id comes round again: the
/// new publish is not written, takes no slot and waits.
pub proof fn law_used_id_holds_publish_back(s: Session, p: Publish)
    requires
        s.valid(),
        s.accepts_request(Request::Publish(p)),
        p.qos != QoS::AtMostOnce,
        s.outgoing_pub[s.pkid_for(p.pkid)] is Some,
    ensures
        ({
            let pkid = s.pkid_for(p.pkid) as u16;
            let held = s.request(Request::Publish(p));
            &&& held.result is Ok
            &&& held.session.waiting_for(pkid) == Some(with_pkid(p, pkid as int))
            &&& held.session.events == s.events.push(Event::Outgoing(Outgoing::AwaitAck(pkid)))
            &&& held.session.write == s.write
            &&& held.session.outgoing_pub == s.outgoing_pub
            &&& held.session.inflight == s.inflight
        }),
{
}

/// The acknowledgement that a publish waits for lets it go: it takes over the
/// slot and the place in the count, is written, and the pings are counted anew.
/// So it does where the slot was already free; the acknowledgement is then
/// unsolicited all the same.
pub proof fn law_ack_resolves_collision(s: Session, p: Publish)
    requires
        s.valid(),
        s.collision == Some(p),
        s.accepts_packet(Incoming::PubAck(PubAck { pkid: p.pkid })),
        publish_rest(p).len() <= MAX_REMAINING,
    ensures
        ({
            let used = s.outgoing_pub[p.pkid as int] is Some;
            let done = s.packet(Incoming::PubAck(PubAck { pkid: p.pkid }));
            &&& used ==> done.result is Ok
            &&& !used ==> done.result == Err::<(), StateError>(StateError::Unsolicited(p.pkid))
            &&& done.session.collision is None
            &&& done.session.collision_ping_count == 0
            &&& done.session.outgoing_pub == s.outgoing_pub.update(p.pkid as int, Some(p))
            &&& done.session.inflight == s.inflight + (if used { 0int } else { 1 })
            &&& done.session.write == s.write + framed(publish_first(p), publish_rest(p))
        }),
{
    let done = s.packet(Incoming::PubAck(PubAck { pkid: p.pkid }));
    assert(done.session.outgoing_pub =~= s.outgoing_pub.update(p.pkid as int, Some(p)));
}

/// A completion lets the publish that waits for its packet id go too: it is
/// written and the pings are counted anew. Where the slot is free, the publish
/// is held there and takes over the place of the release in the count.
pub proof fn law_completion_resolves_collision(s: Session, p: Publish)
    requires
        s.valid(),
        s.collision == Some(p),
        s.accepts_packet(Incoming::PubComp(PubComp { pkid: p.pkid })),
        publish_rest(p).len() <= MAX_REMAINING,
    ensures
        ({
            let released = s.outgoing_rel[p.pkid as int] is Some;
            let free = s.outgoing_pub[p.pkid as int] is None;
            let done = s.packet(Incoming::PubComp(PubComp { pkid: p.pkid }));
            &&& released ==> done.result is Ok
            &&& !released ==> done.result == Err::<(), StateError>(StateError::Unsolicited(p.pkid))
            &&& done.session.collision is None
            &&& done.session.collision_ping_count == 0
            &&& done.session.write == s.write + framed(publish_first(p), publish_rest(p))
            &&& done.session.outgoing_rel == s.outgoing_rel.update(p.pkid as int, None)
            &&& free ==> done.session.outgoing_pub == s.outgoing_pub.update(p.pkid as int, Some(p))
            &&& !free ==> done.session.outgoing_pub == s.outgoing_pub
            &&& done.session.inflight == s.inflight - (if released { 1int } else { 0 }) + (if free { 1int } else { 0 })
        }),
{
}

/// A QoS 2 publish that waited for a completion has its own exchange: its
/// receipt is solicited, and the next completion frees the id.
pub proof fn law_resolved_publish_completes(s: Session, p: Publish)
    requires
        s.valid(),
        s.collision == Some(p),
        s.outgoing_rel[p.pkid as int] is Some,
        s.outgoing_pub[p.pkid as int] is None,
        publish_rest(p).len() <= MAX_REMAINING,
    ensures
        ({
            let rec = Incoming::PubRec(PubRec { pkid: p.pkid });
            let comp = Incoming::PubComp(PubComp { pkid: p.pkid });
            let sent = s.packet(comp);
            let received = sent.session.packet(rec);
            let completed = received.session.packet(comp);
            &&& s.accepts_packet(comp)
            &&& sent.result is Ok
            &&& sent.session.outgoing_pub[p.pkid as int] == Some(p)
            &&& sent.session.inflight == s.inflight
            &&& sent.session.accepts_packet(rec)
            &&& received.result is Ok
            &&& received.session.accepts_packet(comp)
            &&& completed.result is Ok
            &&& completed.session.outgoing_pub == s.outgoing_pub
            &&& completed.session.outgoing_rel == s.outgoing_rel.update(p.pkid as int, None)
            &&& completed.session.inflight == s.inflight - 1
        }),
{
    let comp = Incoming::PubComp(PubComp { pkid: p.pkid });
    let sent = s.packet(comp);
    let received = sent.session.packet(Incoming::PubRec(PubRec { pkid: p.pkid }));
    let completed = received.session.packet(comp);
    assert(completed.session.outgoing_pub =~= s.outgoing_pub);
    assert(completed.session.outgoing_rel =~= s.outgoing_rel.update(p.pkid as int, None));
}

/// While a publish waits for its packet id, the second ping times out, even
/// where the first was answered.
pub proof fn law_second_ping_in_collision_times_out(s: Session)
    requires
        s.valid(),
        s.collision is Some,
        s.collision_ping_count == 0,
        !s.await_pingresp,
    ensures
        ({
            let first = s.request(Request::PingReq);
            let answered = first.session.packet(Incoming::PingResp);
            let second = answered.session.request(Request::PingReq);
            &&& first.result is Ok
            &&& answered.result is Ok
            &&& second.result == Err::<(), StateError>(StateError::CollisionTimeout)
            &&& second.session.write == first.session.write
        }),
{
}

/// A ping is written only when the one before it is answered.
pub proof fn law_ping_waits_for_answer(s: Session)
    requires
        s.valid(),
        s.collision is None,
        !s.await_pingresp,
    ensures
        ({
            let first = s.request(Request::PingReq);
            let second = first.session.request(Request::PingReq);
            let answered = first.session.packet(Incoming::PingResp);
            &&& first.result is Ok
            &&& first.session.write == s.write + framed(0xC0, seq![])
            &&& second.result == Err::<(), StateError>(StateError::AwaitPingResp)
            &&& second.session == first.session
            &&& answered.session.request(Request::PingReq).result is Ok
        }),
{
}

// Refusals and what stays

/// A packet that a client does not get leaves no trace.
pub proof fn law_wrong_packet_changes_nothing(s: Session, packet: Incoming)
    requires
        s.valid(),
    ensures
        (s.packet(packet).result == Err::<(), StateError>(StateError::WrongPacket)) <==> (packet is Connect
            || packet is ConnAck || packet is Subscribe || packet is Unsubscribe || packet is PingReq
            || packet is Disconnect),
        s.packet(packet).result == Err::<(), StateError>(StateError::WrongPacket) ==> s.packet(packet).session == s,
{
}

/// Whether something awaits the packet, where it is an acknowledgement.
pub open spec fn solicited(s: Session, packet: Incoming) -> bool {
    match packet {
        Incoming::PubAck(a) => a.pkid <= s.max_inflight && s.outgoing_pub[a.pkid as int] is Some,
        Incoming::PubRec(a) => a.pkid <= s.max_inflight && s.outgoing_pub[a.pkid as int] is Some,
        Incoming::PubRel(a) => s.incoming_pub[a.pkid as int] is Some,
        Incoming::PubComp(a) => a.pkid <= s.max_inflight && s.outgoing_rel[a.pkid as int] is Some,
        _ => true,
    }
}

/// The packet id of an acknowledgement.
pub open spec fn ack_pkid(packet: Incoming) -> u16 {
    match packet {
        Incoming::PubAck(a) => a.pkid,
        Incoming::PubRec(a) => a.pkid,
        Incoming::PubRel(a) => a.pkid,
        Incoming::PubComp(a) => a.pkid,
        _ => 0,
    }
}

/// An acknowledgement that nothing awaits, be its packet id within the limit or
/// above it, is an error that names the packet id. Unless it lets go a publish that waits for that id, it leaves no trace.
pub proof fn law_unsolicited_ack_changes_nothing(s: Session, packet: Incoming)
    requires
        s.valid(),
        !solicited(s, packet),
        packet is PubAck || packet is PubComp ==> s.waiting_for(ack_pkid(packet)) is None,
    ensures
        s.accepts_packet(packet),
        s.packet(packet).result == Err::<(), StateError>(StateError::Unsolicited(ack_pkid(packet))),
        s.packet(packet).session == s,
{
    assert(s.packet(packet).session =~= s);
}

/// A QoS 0 publish is written and told, and otherwise forgotten.
pub proof fn law_qos0_is_forgotten(s: Session, p: Publish)
    requires
        s.valid(),
        p.qos == QoS::AtMostOnce,
        publish_rest(p).len() <= MAX_REMAINING,
    ensures
        s.request(Request::Publish(p)).result is Ok,
        s.request(Request::Publish(p)).session == (Session {
            write: s.write + framed(publish_first(p), publish_rest(p)),
            events: s.events.push(Event::Outgoing(Outgoing::Publish(p.pkid))),
            ..s
        }),
{
}

/// No request loses what is in flight: a held publish and a recorded release
/// keep their slots, and the count moves with the tables, whether the request
/// is served or not.
pub proof fn law_requests_lose_nothing(s: Session, request: Request)
    requires
        s.valid(),
        s.accepts_request(request),
    ensures
        ({
            let t = s.request(request).session;
            &&& forall|i: int|
                0 <= i <= s.max_inflight && (#[trigger] s.outgoing_pub[i]) is Some ==> t.outgoing_pub[i]
                    == s.outgoing_pub[i]
            &&& forall|i: int|
                0 <= i <= s.max_inflight && (#[trigger] s.outgoing_rel[i]) is Some ==> t.outgoing_rel[i]
                    == s.outgoing_rel[i]
            &&& t.incoming_pub == s.incoming_pub
            &&& t.inflight - s.inflight == occupied(t.outgoing_pub) + occupied(t.outgoing_rel) - occupied(
                s.outgoing_pub,
            ) - occupied(s.outgoing_rel)
            &&& request is Publish ==> t.outgoing_rel == s.outgoing_rel && t.inflight - s.inflight == occupied(
                t.outgoing_pub,
            ) - occupied(s.outgoing_pub)
        }),
{
    match request {
        Request::Publish(p) => {
            if p.qos != QoS::AtMostOnce {
                let q = with_pkid(p, s.pkid_for(p.pkid));
                lemma_occupied_update(s.outgoing_pub, q.pkid as int, Some(q));
            }
        },
        Request::PubRel(pubrel) => {
            let pkid = s.pkid_for(pubrel.pkid) as u16;
            lemma_occupied_update(s.outgoing_rel, pkid as int, Some(pkid));
        },
        _ => {},
    }
}

/// A packet loses nothing in flight but what it acknowledges: a held publish
/// keeps its slot unless its own ack or receipt comes in, a recorded release
/// unless its completion does, a publish that came in unless its release does.
#[verifier::spinoff_prover]
#[verifier::rlimit(60)]
pub proof fn law_packets_lose_only_what_they_ack(s: Session, packet: Incoming)
    requires
        s.valid(),
        s.accepts_packet(packet),
    ensures
        ({
            let t = s.packet(packet).session;
            let acked = ack_pkid(packet) as int;
            &&& forall|i: int|
                0 <= i <= s.max_inflight && (#[trigger] s.outgoing_pub[i]) is Some && !((packet is PubAck
                    || packet is PubRec) && i == acked) ==> t.outgoing_pub[i] == s.outgoing_pub[i]
            &&& forall|i: int|
                0 <= i <= s.max_inflight && (#[trigger] s.outgoing_rel[i]) is Some && !(packet is PubComp
                    && i == acked) ==> t.outgoing_rel[i] == s.outgoing_rel[i]
            &&& forall|i: int|
                0 <= i < s.incoming_pub.len() && (#[trigger] s.incoming_pub[i]) is Some && !(packet is PubRel
                    && i == acked) ==> t.incoming_pub[i] == s.incoming_pub[i]
        }),
{
}

/// No request takes back what was written or told, nor changes the limit.
pub proof fn law_requests_only_append(s: Session, request: Request)
    requires
        s.valid(),
        s.accepts_request(request),
    ensures
        s.write.is_prefix_of(s.request(request).session.write),
        s.events.is_prefix_of(s.request(request).session.events),
        s.request(request).session.max_inflight == s.max_inflight,
{
}

/// No packet takes back what was written or told, nor changes the limit or the
/// packet ids to come.
#[verifier::spinoff_prover]
#[verifier::rlimit(60)]
pub proof fn law_packets_only_append(s: Session, packet: Incoming)
    requires
        s.valid(),
        s.accepts_packet(packet),
    ensures
        s.write.is_prefix_of(s.packet(packet).session.write),
        s.events.is_prefix_of(s.packet(packet).session.events),
        s.packet(packet).session.max_inflight == s.max_inflight,
        s.packet(packet).session.last_pkid == s.last_pkid,
{
}

// The count of what is in flight

/// The count agrees with the tables: every publish that is not acknowledged
/// and every release that is not completed is in flight, and nothing else.
pub open spec fn balanced(s: Session) -> bool {
    s.inflight == occupied(s.outgoing_pub) + occupied(s.outgoing_rel)
}

/// A new session is balanced, and a session is so once it is cleaned.
pub proof fn law_balance_starts(s: Session, max_inflight: int)
    requires
        s.valid(),
    ensures
        s.is_fresh(max_inflight) ==> balanced(s),
        balanced(s.cleaned()),
{
    lemma_occupied_empty::<Publish>(s.outgoing_pub.len());
    lemma_occupied_empty::<u16>(s.outgoing_rel.len());
}

/// Requests keep the balance.
pub proof fn law_requests_keep_balance(s: Session, request: Request)
    requires
        s.valid(),
        s.accepts_request(request),
        balanced(s),
    ensures
        balanced(s.request(request).session),
{
    law_requests_lose_nothing(s, request);
}

/// Packets keep the balance. Left out is the receipt of a publish under an id
/// whose release is not completed: two exchanges then share one slot.
pub proof fn law_packets_keep_balance(s: Session, packet: Incoming)
    requires
        s.valid(),
        s.accepts_packet(packet),
        balanced(s),
        packet matches Incoming::PubRec(a) ==> !(solicited(s, packet) && s.outgoing_rel[a.pkid as int] is Some),
    ensures
        balanced(s.packet(packet).session),
{
    lemma_packet_moves_count(s, packet);
}

/// A release that is sent again after cleaning is in flight until its
/// completion comes in, which then frees its slot and its place in the count.
pub proof fn law_release_sent_again_completes(s: Session, pubrel: PubRel)
    requires
        s.valid(),
        s.accepts_request(Request::PubRel(pubrel)),
        s.outgoing_rel[s.pkid_for(pubrel.pkid)] is None,
        s.waiting_for(s.pkid_for(pubrel.pkid) as u16) is None,
    ensures
        ({
            let pkid = s.pkid_for(pubrel.pkid) as u16;
            let comp = Incoming::PubComp(PubComp { pkid });
            let sent = s.request(Request::PubRel(pubrel));
            let completed = sent.session.packet(comp);
            &&& sent.result is Ok
            &&& sent.session.outgoing_rel[pkid as int] == Some(pkid)
            &&& sent.session.inflight == s.inflight + 1
            &&& sent.session.accepts_packet(comp)
            &&& completed.result is Ok
            &&& completed.session.outgoing_rel == s.outgoing_rel
            &&& completed.session.inflight == s.inflight
        }),
{
    let pkid = s.pkid_for(pubrel.pkid) as u16;
    let sent = s.request(Request::PubRel(pubrel));
    let completed = sent.session.packet(Incoming::PubComp(PubComp { pkid }));
    assert(completed.session.outgoing_rel =~= s.outgoing_rel);
}

/// No more publishes are held than the limit allows, and no more releases.
pub proof fn law_tables_stay_within_limit(s: Session)
    requires
        s.valid(),
    ensures
        occupied(s.outgoing_pub) <= s.max_inflight,
        occupied(s.outgoing_rel) <= s.max_inflight,
{
    lemma_occupied_bound(s.outgoing_pub);
    lemma_occupied_bound(s.outgoing_rel);
}

/// A balanced session with fewer than half of all packet ids can take every
/// packet, and serve every publish and release whose packet id is within the
/// limit: its count does not run over.
pub proof fn law_balance_prevents_overflow(s: Session, packet: Incoming, p: Publish, pubrel: PubRel)
    requires
        s.valid(),
        balanced(s),
        s.max_inflight <= 32_767,
    ensures
        s.inflight <= 2 * s.max_inflight,
        s.accepts_packet(packet),
        publish_rest(p).len() <= usize::MAX && s.pkid_for(p.pkid) <= s.max_inflight ==> s.accepts_request(
            Request::Publish(p),
        ),
        s.pkid_for(pubrel.pkid) <= s.max_inflight ==> s.accepts_request(Request::PubRel(pubrel)),
{
    law_tables_stay_within_limit(s);
}

// Cleaning and sending again

/// A cleaned session has nothing to send again, and cleaning it changes nothing.
pub proof fn law_cleaned_is_clean(s: Session)
    requires
        s.valid(),
    ensures
        s.cleaned().pending() == Seq::<Request>::empty(),
        s.cleaned().cleaned() == s.cleaned(),
{
    lemma_nothing_held(s.outgoing_pub.len());
    lemma_no_release_held(s.outgoing_rel.len());
    assert(s.cleaned().pending() =~= Seq::<Request>::empty());
    assert(s.cleaned().cleaned() =~= s.cleaned());
}

proof fn lemma_nothing_held(n: nat)
    ensures
        held_publishes(empty_slots::<Publish>(n)) == Seq::<Request>::empty(),
    decreases n,
{
    reveal(Seq::filter);
    if n > 0 {
        lemma_nothing_held((n - 1) as nat);
        assert(empty_slots::<Publish>(n).drop_last() =~= empty_slots::<Publish>((n - 1) as nat));
    }
    assert(held_publishes(empty_slots::<Publish>(n)) =~= Seq::<Request>::empty());
}

proof fn lemma_no_release_held(n: nat)
    ensures
        held_releases(empty_slots::<u16>(n)) == Seq::<Request>::empty(),
    decreases n,
{
    reveal(Seq::filter);
    if n > 0 {
        lemma_no_release_held((n - 1) as nat);
        assert(empty_slots::<u16>(n).drop_last() =~= empty_slots::<u16>((n - 1) as nat));
    }
    assert(held_releases(empty_slots::<u16>(n)) =~= Seq::<Request>::empty());
}

/// Cleaning returns one request for each slot that holds something: in a
/// balanced session, as many as are in flight.
pub proof fn law_pending_counts_inflight(s: Session)
    requires
        s.valid(),
    ensures
        s.pending().len() == occupied(s.outgoing_pub) + occupied(s.outgoing_rel),
        balanced(s) ==> s.pending().len() == s.inflight,
{
    lemma_held_publishes_len(s.outgoing_pub);
    lemma_held_releases_len(s.outgoing_rel);
}

proof fn lemma_held_publishes_len(slots: Seq<Option<Publish>>)
    ensures
        held_publishes(slots).len() == occupied(slots),
    decreases slots.len(),
{
    if slots.len() == 0 {
        reveal(Seq::filter);
    } else {
        let n = slots.len() as int;
        lemma_held_publishes_len(slots.drop_last());
        lemma_held_publishes_step(slots, n - 1);
        assert(slots.take(n) =~= slots);
        assert(slots.take(n - 1) =~= slots.drop_last());
    }
}

proof fn lemma_held_releases_len(slots: Seq<Option<u16>>)
    ensures
        held_releases(slots).len() == occupied(slots),
    decreases slots.len(),
{
    if slots.len() == 0 {
        reveal(Seq::filter);
    } else {
        let n = slots.len() as int;
        lemma_held_releases_len(slots.drop_last());
        lemma_held_releases_step(slots, n - 1);
        assert(slots.take(n) =~= slots);
        assert(slots.take(n - 1) =~= slots.drop_last());
    }
}

/// The session after a list of requests, whatever each returns.
pub open spec fn after_requests(s: Session, requests: Seq<Request>) -> Session
    decreases requests.len(),
{
    if requests.len() == 0 {
        s
    } else {
        after_requests(s, requests.drop_last()).request(requests.last()).session
    }
}

/// Each of a list of requests can be served once those before it are.
pub open spec fn accepts_requests(s: Session, requests: Seq<Request>) -> bool
    decreases requests.len(),
{
    requests.len() > 0 ==> {
        &&& accepts_requests(s, requests.drop_last())
        &&& after_requests(s, requests.drop_last()).accepts_request(requests.last())
    }
}

/// What the tables hold is lost by no cleaning: the requests that it returns
/// can be served in order, and put every publish and release back into its
/// slot and into the count. A balanced session gets its whole count back.
#[verifier::spinoff_prover]
#[verifier::rlimit(60)]
pub proof fn law_pending_restores_tables(s: Session)
    requires
        s.valid(),
    ensures
        ({
            let back = after_requests(s.cleaned(), s.pending());
            &&& accepts_requests(s.cleaned(), s.pending())
            &&& back.outgoing_pub == s.outgoing_pub
            &&& back.outgoing_rel == s.outgoing_rel
            &&& back.inflight == occupied(s.outgoing_pub) + occupied(s.outgoing_rel)
            &&& balanced(s) ==> back.inflight == s.inflight
            &&& back.last_pkid == s.last_pkid
            &&& back.collision == s.collision
        }),
{
    let pubs = s.outgoing_pub;
    let rels = s.outgoing_rel;
    lemma_publishes_restore(s, pubs.len() as int);
    assert(pubs.take(pubs.len() as int) =~= pubs);
    lemma_releases_restore(s, rels.len() as int);
    assert(rels.take(rels.len() as int) =~= rels);
    let back = after_requests(s.cleaned(), s.pending());
    assert(back.outgoing_pub =~= pubs);
    assert(back.outgoing_rel =~= rels);
}

proof fn lemma_occupied_prefix<T>(slots: Seq<Option<T>>, i: int)
    requires
        0 <= i <= slots.len(),
    ensures
        occupied(slots.take(i)) <= occupied(slots),
    decreases slots.len(),
{
    if i == slots.len() {
        assert(slots.take(i) =~= slots);
    } else {
        lemma_occupied_prefix(slots.drop_last(), i);
        assert(slots.drop_last().take(i) =~= slots.take(i));
    }
}

/// Slots below `i` as in `slots`, the others empty.
spec fn filled<T>(slots: Seq<Option<T>>, i: int) -> Seq<Option<T>> {
    Seq::new(slots.len(), |j: int| if j < i { slots[j] } else { None })
}

#[verifier::spinoff_prover]
#[verifier::rlimit(60)]
proof fn lemma_publishes_restore(s: Session, i: int)
    requires
        s.valid(),
        0 <= i <= s.outgoing_pub.len(),
    ensures
        ({
            let again = held_publishes(s.outgoing_pub.take(i));
            let back = after_requests(s.cleaned(), again);
            &&& accepts_requests(s.cleaned(), again)
            &&& back.outgoing_pub == filled(s.outgoing_pub, i)
            &&& back.outgoing_rel == s.cleaned().outgoing_rel
            &&& back.inflight == occupied(s.outgoing_pub.take(i))
            &&& back.last_pkid == s.last_pkid
            &&& back.max_inflight == s.max_inflight
            &&& back.collision == s.collision
        }),
    decreases i,
{
    let slots = s.outgoing_pub;
    if i == 0 {
        reveal(Seq::filter);
        assert(held_publishes(slots.take(0)) =~= Seq::<Request>::empty());
        assert(s.cleaned().outgoing_pub =~= filled(slots, 0));
    } else {
        lemma_publishes_restore(s, i - 1);
        lemma_held_publishes_step(slots, i - 1);
        assert(slots.take(i).drop_last() =~= slots.take(i - 1));
        let before = held_publishes(slots.take(i - 1));
        match slots[i - 1] {
            Some(p) => {
                lemma_occupied_prefix(slots, i);
                assert(with_pkid(p, p.pkid as int) == p);
                assert(before.push(Request::Publish(p)).drop_last() =~= before);
                assert(filled(slots, i - 1).update(i - 1, Some(p)) =~= filled(slots, i));
            },
            None => {
                assert(filled(slots, i - 1) =~= filled(slots, i));
            },
        }
    }
}

#[verifier::spinoff_prover]
#[verifier::rlimit(60)]
proof fn lemma_releases_restore(s: Session, i: int)
    requires
        s.valid(),
        0 <= i <= s.outgoing_rel.len(),
    ensures
        ({
            let start = after_requests(s.cleaned(), held_publishes(s.outgoing_pub));
            let again = held_publishes(s.outgoing_pub) + held_releases(s.outgoing_rel.take(i));
            let back = after_requests(s.cleaned(), again);
            &&& accepts_requests(s.cleaned(), again)
            &&& back.max_inflight == s.max_inflight
            &&& back.outgoing_pub == start.outgoing_pub
            &&& back.outgoing_rel == filled(s.outgoing_rel, i)
            &&& back.inflight == start.inflight + occupied(s.outgoing_rel.take(i))
            &&& start.inflight == occupied(s.outgoing_pub)
            &&& back.last_pkid == start.last_pkid
            &&& back.collision == start.collision
        }),
    decreases i,
{
    let slots = s.outgoing_rel;
    let pubs = held_publishes(s.outgoing_pub);
    if i == 0 {
        reveal(Seq::filter);
        lemma_publishes_restore(s, s.outgoing_pub.len() as int);
        assert(s.outgoing_pub.take(s.outgoing_pub.len() as int) =~= s.outgoing_pub);
        assert(pubs + held_releases(slots.take(0)) =~= pubs);
        assert(s.cleaned().outgoing_rel =~= filled(slots, 0));
    } else {
        lemma_releases_restore(s, i - 1);
        lemma_held_releases_step(slots, i - 1);
        assert(slots.take(i).drop_last() =~= slots.take(i - 1));
        let before = pubs + held_releases(slots.take(i - 1));
        match slots[i - 1] {
            Some(pkid) => {
                lemma_occupied_prefix(slots, i);
                let last = Request::PubRel(PubRel { pkid });
                assert(pubs + held_releases(slots.take(i)) =~= before.push(last));
                assert(before.push(last).drop_last() =~= before);
                assert(filled(slots, i - 1).update(i - 1, Some(pkid)) =~= filled(slots, i));
            },
            None => {
                assert(filled(slots, i - 1) =~= filled(slots, i));
            },
        }
    }
}

} // verus!
