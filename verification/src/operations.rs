//! What a caller of the library can count on, call by call: when a call is
//! open to it, what the call gives back and what it leaves of a state.

use std::time::Instant;

use vstd::prelude::*;

use crate::broker::{closing, server_thread_name, Closing, LinkEnd};
use crate::effects::{
    law_cleaning, law_new_session, law_packets_reach_user, law_pending_is_what_is_held, place,
};
use crate::error::{PacketError, StateError};
use crate::packet::{Event, Incoming, PubRel, Request};
use crate::session::Session;
use crate::state::MqttState;
use crate::transport::{check_bound, step, FailureKind, SocketFailure};
use crate::wire::buffered;

verus! {

/// The fields of a state are those of the session that it stands for.
pub proof fn law_state_is_its_session(state: MqttState)
    ensures
        state@.await_pingresp == state.await_pingresp,
        state@.collision_ping_count == state.collision_ping_count,
        state@.last_incoming == state.last_incoming,
        state@.last_outgoing == state.last_outgoing,
        state@.last_pkid == state.last_pkid,
        state@.inflight == state.inflight,
        state@.max_inflight == state.max_inflight,
        state@.outgoing_pub == state.outgoing_pub@,
        state@.outgoing_rel == state.outgoing_rel@,
        state@.incoming_pub == state.incoming_pub@,
        state@.collision == state.collision,
        state@.events == state.events@,
        state@.write == buffered(state.write),
{
}

/// A state can be made for every limit. It has that limit and holds nothing.
pub proof fn law_new_states(max_inflight: u16, state: MqttState)
    requires
        call_ensures(MqttState::new, (max_inflight,), state),
    ensures
        call_requires(MqttState::new, (max_inflight,)),
        state@.valid(),
        state.max_inflight == max_inflight,
        state.last_pkid == 0,
        state.inflight == 0,
        state.collision_ping_count == 0,
        !state.await_pingresp,
        state.collision is None,
        state.events@.len() == 0,
        buffered(state.write).len() == 0,
        state.outgoing_pub@.len() == max_inflight + 1,
        state.outgoing_rel@.len() == max_inflight + 1,
        state.incoming_pub@.len() == 65_536,
        forall|i: int| 0 <= i <= max_inflight ==> (#[trigger] state.outgoing_pub@[i]) is None,
        forall|i: int| 0 <= i <= max_inflight ==> (#[trigger] state.outgoing_rel@[i]) is None,
        forall|i: int| 0 <= i < 65_536 ==> (#[trigger] state.incoming_pub@[i]) is None,
{
    law_new_session(state@, max_inflight as int);
}

/// A state made at given times keeps these times, and is a new one otherwise.
pub proof fn law_new_states_at(max_inflight: u16, incoming: Instant, outgoing: Instant, state: MqttState)
    requires
        call_ensures(MqttState::new_at, (max_inflight, incoming, outgoing), state),
    ensures
        call_requires(MqttState::new_at, (max_inflight, incoming, outgoing)),
        state@.valid(),
        state.last_incoming == incoming,
        state.last_outgoing == outgoing,
        state.max_inflight == max_inflight,
        state@.is_fresh(max_inflight as int),
{
    law_new_session(state@, max_inflight as int);
}

/// Two states made for the same limit at the same times are the same session.
pub proof fn law_new_states_are_alike(
    max_inflight: u16,
    incoming: Instant,
    outgoing: Instant,
    a: MqttState,
    b: MqttState,
)
    requires
        call_ensures(MqttState::new_at, (max_inflight, incoming, outgoing), a),
        call_ensures(MqttState::new_at, (max_inflight, incoming, outgoing), b),
    ensures
        a@ == b@,
{
    law_new_session(a@, max_inflight as int);
    law_new_session(b@, max_inflight as int);
    assert(a@ =~= b@);
}

/// The count of a state is told as it is.
pub proof fn law_inflight_is_told(state: &MqttState, r: u16)
    requires
        call_ensures(MqttState::inflight, (state,), r),
    ensures
        call_requires(MqttState::inflight, (state,)),
        r == state.inflight,
{
}

/// A valid state tells which requests and packets are open to it.
pub proof fn law_openness_is_told(state: &MqttState, request: &Request, packet: &Incoming, r: bool, p: bool)
    requires
        state@.valid(),
        call_ensures(MqttState::accepts_request, (state, request), r),
        call_ensures(MqttState::accepts_packet, (state, packet), p),
    ensures
        call_requires(MqttState::accepts_request, (state, request)),
        call_requires(MqttState::accepts_packet, (state, packet)),
        r <==> state@.accepts_request(*request),
        p <==> state@.accepts_packet(*packet),
{
}

/// Every valid state can be cleaned. The call returns each publish and each
/// release that was held, once and in the order of their packet ids, and
/// leaves nothing of them, nor of what was awaited.
pub proof fn law_clean(state: &mut MqttState, pending: Vec<Request>)
    requires
        old(state)@.valid(),
        call_ensures(MqttState::clean, (state,), pending),
    ensures
        call_requires(MqttState::clean, (state,)),
        final(state)@.valid(),
        !final(state).await_pingresp,
        final(state).collision_ping_count == 0,
        final(state).inflight == 0,
        final(state).last_pkid == old(state).last_pkid,
        final(state).max_inflight == old(state).max_inflight,
        final(state).collision == old(state).collision,
        final(state).events@ == old(state).events@,
        buffered(final(state).write) == buffered(old(state).write),
        final(state).last_incoming == old(state).last_incoming,
        final(state).last_outgoing == old(state).last_outgoing,
        final(state).outgoing_pub@.len() == old(state).outgoing_pub@.len(),
        final(state).outgoing_rel@.len() == old(state).outgoing_rel@.len(),
        final(state).incoming_pub@.len() == old(state).incoming_pub@.len(),
        forall|i: int|
            0 <= i < final(state).outgoing_pub@.len() ==> (#[trigger] final(state).outgoing_pub@[i]) is None,
        forall|i: int|
            0 <= i < final(state).outgoing_rel@.len() ==> (#[trigger] final(state).outgoing_rel@[i]) is None,
        forall|i: int|
            0 <= i < final(state).incoming_pub@.len() ==> (#[trigger] final(state).incoming_pub@[i]) is None,
        forall|i: int|
            0 <= i < old(state).outgoing_pub@.len() && (#[trigger] old(state).outgoing_pub@[i]) is Some
                ==> pending@.contains(Request::Publish(old(state).outgoing_pub@[i]->0)),
        forall|i: int|
            0 <= i < old(state).outgoing_rel@.len() && (#[trigger] old(state).outgoing_rel@[i]) is Some
                ==> pending@.contains(Request::PubRel(PubRel { pkid: i as u16 })),
        forall|a: int|
            0 <= a < pending@.len() ==> match #[trigger] pending@[a] {
                Request::Publish(p) => old(state).outgoing_pub@[p.pkid as int] == Some(p),
                Request::PubRel(r) => old(state).outgoing_rel@[r.pkid as int] == Some(r.pkid),
                _ => false,
            },
        forall|a: int, b: int|
            0 <= a < b < pending@.len() ==> place(#[trigger] pending@[a]) < place(#[trigger] pending@[b]),
{
    law_cleaning(old(state)@);
    law_pending_is_what_is_held(old(state)@);
}

/// A valid state serves every request that is open to it. The time of what was
/// sent last is that of the call where it succeeds, and else stays.
pub proof fn law_requests_are_served(
    state: &mut MqttState,
    request: Request,
    now: Instant,
    r: Result<(), StateError>,
)
    requires
        old(state)@.valid(),
        old(state)@.accepts_request(request),
        call_ensures(MqttState::handle_outgoing_packet_at, (state, request, now), r),
    ensures
        call_requires(MqttState::handle_outgoing_packet_at, (state, request, now)),
        final(state)@.valid(),
        r == old(state)@.request(request).result,
        final(state).last_outgoing == (if r is Ok {
            now
        } else {
            old(state).last_outgoing
        }),
        final(state).last_incoming == old(state).last_incoming,
        final(state).max_inflight == old(state).max_inflight,
        final(state).await_pingresp == old(state)@.request(request).session.await_pingresp,
        final(state).collision_ping_count == old(state)@.request(request).session.collision_ping_count,
        final(state).last_pkid == old(state)@.request(request).session.last_pkid,
        final(state).inflight == old(state)@.request(request).session.inflight,
        final(state).outgoing_pub@ == old(state)@.request(request).session.outgoing_pub,
        final(state).outgoing_rel@ == old(state)@.request(request).session.outgoing_rel,
        final(state).incoming_pub@ == old(state).incoming_pub@,
        final(state).collision == old(state)@.request(request).session.collision,
        final(state).events@ == old(state)@.request(request).session.events,
        buffered(final(state).write) == old(state)@.request(request).session.write,
{
}

/// A request served by the clock does the same, but for the time.
pub proof fn law_requests_are_served_by_clock(state: &mut MqttState, request: Request, r: Result<(), StateError>)
    requires
        old(state)@.valid(),
        old(state)@.accepts_request(request),
        call_ensures(MqttState::handle_outgoing_packet, (state, request), r),
    ensures
        call_requires(MqttState::handle_outgoing_packet, (state, request)),
        final(state)@.valid(),
        r == old(state)@.request(request).result,
        final(state)@ == (Session {
            last_outgoing: final(state).last_outgoing,
            ..old(state)@.request(request).session
        }),
        r is Err ==> final(state).last_outgoing == old(state).last_outgoing,
{
}

/// A valid state takes every packet that is open to it. The time of what came
/// in last is that of the call where it succeeds, and else stays. A packet that
/// is taken well is the last notice; one that is an error is no notice.
pub proof fn law_packets_are_taken(state: &mut MqttState, packet: Incoming, now: Instant, r: Result<(), StateError>)
    requires
        old(state)@.valid(),
        old(state)@.accepts_packet(packet),
        call_ensures(MqttState::handle_incoming_packet_at, (state, packet, now), r),
    ensures
        call_requires(MqttState::handle_incoming_packet_at, (state, packet, now)),
        final(state)@.valid(),
        r == old(state)@.packet(packet).result,
        final(state).last_incoming == (if r is Ok {
            now
        } else {
            old(state).last_incoming
        }),
        final(state).last_outgoing == old(state).last_outgoing,
        final(state).max_inflight == old(state).max_inflight,
        final(state).last_pkid == old(state).last_pkid,
        final(state).await_pingresp == old(state)@.packet(packet).session.await_pingresp,
        final(state).collision_ping_count == old(state)@.packet(packet).session.collision_ping_count,
        final(state).inflight == old(state)@.packet(packet).session.inflight,
        final(state).outgoing_pub@ == old(state)@.packet(packet).session.outgoing_pub,
        final(state).outgoing_rel@ == old(state)@.packet(packet).session.outgoing_rel,
        final(state).incoming_pub@ == old(state)@.packet(packet).session.incoming_pub,
        final(state).collision == old(state)@.packet(packet).session.collision,
        final(state).events@ == old(state)@.packet(packet).session.events,
        buffered(final(state).write) == old(state)@.packet(packet).session.write,
        r is Ok ==> final(state).events@.last() == Event::Incoming(packet),
        r is Err ==> forall|i: int|
            old(state).events@.len() <= i < final(state).events@.len()
                ==> (#[trigger] final(state).events@[i]) is Outgoing,
{
    law_packets_reach_user(old(state)@, packet);
}

/// A packet taken by the clock does the same, but for the time.
pub proof fn law_packets_are_taken_by_clock(state: &mut MqttState, packet: Incoming, r: Result<(), StateError>)
    requires
        old(state)@.valid(),
        old(state)@.accepts_packet(packet),
        call_ensures(MqttState::handle_incoming_packet, (state, packet), r),
    ensures
        call_requires(MqttState::handle_incoming_packet, (state, packet)),
        final(state)@.valid(),
        r == old(state)@.packet(packet).result,
        final(state)@ == (Session {
            last_incoming: final(state).last_incoming,
            ..old(state)@.packet(packet).session
        }),
        r is Err ==> final(state).last_incoming == old(state).last_incoming,
{
}

/// An error of the network, of the codec or of a packet is kept whole in the
/// error that a session gives, so that each is told from the others.
pub proof fn law_errors_are_kept(
    io: std::io::Error,
    codec: mqttbytes::Error,
    packet: PacketError,
    x: StateError,
    y: StateError,
    z: StateError,
)
    requires
        call_ensures(<StateError as From<std::io::Error>>::from, (io,), x),
        call_ensures(<StateError as From<mqttbytes::Error>>::from, (codec,), y),
        call_ensures(<StateError as From<PacketError>>::from, (packet,), z),
    ensures
        x == StateError::Io(io),
        y == StateError::Deserialization(PacketError::Codec(codec)),
        z == StateError::Deserialization(packet),
{
}

/// A last will is executed for every client but one that asked to be
/// disconnected, and each way that a link ends is told apart from the others,
/// but for the failures.
pub proof fn law_only_a_disconnect_spares_the_will(end: LinkEnd, r: Closing)
    requires
        call_ensures(closing, (end,), r),
    ensures
        call_requires(closing, (end,)),
        !r.execute_will <==> end is Disconnect,
        r.notice is Disconnected <==> end is Disconnect,
        r.notice is Stopped <==> end is Stopped,
        r.notice is Closed <==> end is Io && end->aborted,
        r.notice is Failed <==> end is Other || end is Io && !end->aborted,
{
}

/// The thread of a listener has a name of its own, from which the listener can
/// be read.
pub proof fn law_thread_names_differ(a: &str, b: &str, x: String, y: String)
    requires
        call_ensures(server_thread_name, (a,), x),
        call_ensures(server_thread_name, (b,), y),
    ensures
        call_requires(server_thread_name, (a,)),
        "rumqttd-server-"@.is_prefix_of(x@),
        x@.skip("rumqttd-server-"@.len() as int) == a@,
        x@ == y@ ==> a@ == b@,
{
    assert(x@.skip("rumqttd-server-"@.len() as int) =~= a@);
    assert(y@.skip("rumqttd-server-"@.len() as int) =~= b@);
}

/// A failure to get hold of a socket is the caller's, an address that is not
/// told is not found, and what goes wrong later is the connection's.
pub proof fn law_kinds_of_failures(failure: SocketFailure, r: FailureKind)
    requires
        call_ensures(SocketFailure::kind, (failure,), r),
    ensures
        call_requires(SocketFailure::kind, (failure,)),
        r is InvalidInput <==> failure is Bind || failure is FromStd,
        r is NotFound <==> failure is LocalAddress,
        r is ConnectionAborted <==> failure is NotBound,
        r is ConnectionRefused <==> failure is Handshake,
{
}

/// No two failures are told in the same words.
pub proof fn law_failures_are_told_apart(a: SocketFailure, b: SocketFailure, x: &'static str, y: &'static str)
    requires
        call_ensures(SocketFailure::message, (a,), x),
        call_ensures(SocketFailure::message, (b,), y),
    ensures
        call_requires(SocketFailure::message, (a,)),
        x@ == y@ <==> a == b,
        a is Bind ==> x@ == "could not resolve to any address"@,
        a is FromStd ==> x@ == "could not resolve from std socket"@,
        a is LocalAddress ==> x@ == "could not resolve to local address"@,
        a is NotBound ==> x@ == "underlying socket not bound"@,
        a is Handshake ==> x@ == "could not connect"@,
{
    reveal_strlit("could not resolve to any address");
    reveal_strlit("could not resolve from std socket");
    reveal_strlit("could not resolve to local address");
    reveal_strlit("underlying socket not bound");
    reveal_strlit("could not connect");
    assert("could not resolve to any address"@.len() == 32);
    assert("could not resolve from std socket"@.len() == 33);
    assert("could not resolve to local address"@.len() == 34);
    assert("underlying socket not bound"@.len() == 27);
    assert("could not connect"@.len() == 17);
}

/// A step passes on what it gave, and tells of its own failure only where it
/// failed.
pub proof fn law_steps<T, E>(done: Result<T, E>, at: SocketFailure, r: Result<T, SocketFailure>)
    requires
        call_ensures(step::<T, E>, (done, at), r),
    ensures
        call_requires(step::<T, E>, (done, at)),
        done matches Ok(t) ==> r == Ok::<T, SocketFailure>(t),
        done is Err ==> r == Err::<T, SocketFailure>(at),
{
}

/// A socket is fit for a connection exactly when it is bound.
pub proof fn law_bound_sockets(bound: bool, r: Result<(), SocketFailure>)
    requires
        call_ensures(check_bound, (bound,), r),
    ensures
        call_requires(check_bound, (bound,)),
        r is Ok <==> bound,
        r is Err ==> r->Err_0 is NotBound,
{
}

} // verus!
