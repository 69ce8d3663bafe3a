//! Packets from the broker.

use mquictt::error::StateError;
use mquictt::packet::{
    ConnAck, ConnectReturnCode, Event, Incoming, Outgoing, PubAck, PubComp, PubRec, PubRel, Publish,
    QoS, Request, SubAck, Subscribe, SubscribeReasonCode, UnsubAck, Unsubscribe,
};
use mquictt::state::MqttState;

fn publish(qos: QoS, pkid: u16) -> Publish {
    Publish { dup: false, qos, retain: false, topic: "hello".to_string(), pkid, payload: vec![7] }
}

fn state_with(qos: QoS, count: usize) -> MqttState {
    let mut state = MqttState::new(10);
    for _ in 0..count {
        state.handle_outgoing_packet(Request::Publish(publish(qos, 0))).unwrap();
    }
    state.events.clear();
    state.write.clear();
    state
}

fn receive(state: &mut MqttState, packet: Incoming) -> Result<(), StateError> {
    assert!(state.accepts_packet(&packet));
    state.handle_incoming_packet(packet)
}

#[test]
fn publish_is_answered_by_level() {
    let mut state = MqttState::new(10);
    for (qos, pkid) in [(QoS::AtMostOnce, 1), (QoS::AtLeastOnce, 2), (QoS::ExactlyOnce, 0x0304)] {
        receive(&mut state, Incoming::Publish(publish(qos, pkid))).unwrap();
    }
    assert_eq!(&state.write[..], &[0x40, 2, 0, 2, 0x50, 2, 3, 4]);
    let events: Vec<Event> = state.events.iter().cloned().collect();
    assert_eq!(
        events,
        vec![
            Event::Incoming(Incoming::Publish(publish(QoS::AtMostOnce, 1))),
            Event::Outgoing(Outgoing::PubAck(2)),
            Event::Incoming(Incoming::Publish(publish(QoS::AtLeastOnce, 2))),
            Event::Outgoing(Outgoing::PubRec(0x0304)),
            Event::Incoming(Incoming::Publish(publish(QoS::ExactlyOnce, 0x0304))),
        ]
    );
}

#[test]
fn release_is_answered_once() {
    let mut state = MqttState::new(10);
    receive(&mut state, Incoming::Publish(publish(QoS::ExactlyOnce, 65_535))).unwrap();
    receive(&mut state, Incoming::PubRel(PubRel { pkid: 65_535 })).unwrap();
    assert_eq!(&state.write[..], &[0x50, 2, 0xff, 0xff, 0x70, 2, 0xff, 0xff]);
    let events = state.events.len();
    let err = receive(&mut state, Incoming::PubRel(PubRel { pkid: 65_535 })).unwrap_err();
    assert!(matches!(err, StateError::Unsolicited(65_535)));
    assert_eq!(state.write.len(), 8);
    assert_eq!(state.events.len(), events);
}

#[test]
fn acks_in_any_order() {
    let mut state = state_with(QoS::AtLeastOnce, 3);
    assert_eq!(state.inflight(), 3);
    for pkid in [2, 3, 1] {
        receive(&mut state, Incoming::PubAck(PubAck { pkid })).unwrap();
    }
    assert_eq!(state.inflight(), 0);
    assert!(state.write.is_empty());
    assert!(state.clean().is_empty());
}

#[test]
fn unsolicited_ack_changes_nothing() {
    let mut state = state_with(QoS::AtLeastOnce, 1);
    let err = receive(&mut state, Incoming::PubAck(PubAck { pkid: 2 })).unwrap_err();
    assert!(matches!(err, StateError::Unsolicited(2)));
    let err = receive(&mut state, Incoming::PubRec(PubRec { pkid: 3 })).unwrap_err();
    assert!(matches!(err, StateError::Unsolicited(3)));
    let err = receive(&mut state, Incoming::PubComp(PubComp { pkid: 1 })).unwrap_err();
    assert!(matches!(err, StateError::Unsolicited(1)));
    assert_eq!(state.inflight(), 1);
    assert!(state.events.is_empty());
    assert!(state.write.is_empty());
}

#[test]
fn qos2_exchange_leaves_the_count_at_completion() {
    let mut state = state_with(QoS::ExactlyOnce, 2);
    receive(&mut state, Incoming::PubRec(PubRec { pkid: 2 })).unwrap();
    assert_eq!(&state.write[..], &[0x62, 2, 0, 2]);
    assert_eq!(state.inflight(), 2);
    assert_eq!(state.events[0], Event::Outgoing(Outgoing::PubRel(2)));
    assert_eq!(state.events[1], Event::Incoming(Incoming::PubRec(PubRec { pkid: 2 })));
    // the receipt is good for one release
    let err = receive(&mut state, Incoming::PubRec(PubRec { pkid: 2 })).unwrap_err();
    assert!(matches!(err, StateError::Unsolicited(2)));
    receive(&mut state, Incoming::PubComp(PubComp { pkid: 2 })).unwrap();
    assert_eq!(state.inflight(), 1);
}

#[test]
fn clean_returns_publishes_then_releases() {
    let mut state = state_with(QoS::ExactlyOnce, 3);
    receive(&mut state, Incoming::PubRec(PubRec { pkid: 2 })).unwrap();
    receive(&mut state, Incoming::Publish(publish(QoS::ExactlyOnce, 9))).unwrap();
    state.handle_outgoing_packet(Request::PingReq).unwrap();
    let pending = state.clean();
    assert_eq!(
        pending,
        vec![
            Request::Publish(publish(QoS::ExactlyOnce, 1)),
            Request::Publish(publish(QoS::ExactlyOnce, 3)),
            Request::PubRel(PubRel { pkid: 2 }),
        ]
    );
    assert_eq!(state.inflight(), 0);
    assert!(!state.await_pingresp);
    assert!(state.clean().is_empty());
    // what came in is forgotten too
    let err = receive(&mut state, Incoming::PubRel(PubRel { pkid: 9 })).unwrap_err();
    assert!(matches!(err, StateError::Unsolicited(9)));
    // served again, the requests put everything back
    for request in pending.clone() {
        assert!(state.accepts_request(&request));
        state.handle_outgoing_packet(request).unwrap();
    }
    assert_eq!(state.inflight(), 3);
    assert_eq!(state.clean(), pending);
}

#[test]
fn clean_keeps_the_packet_ids_and_the_collision() {
    let mut state = MqttState::new(1);
    state.handle_outgoing_packet(Request::Publish(publish(QoS::AtLeastOnce, 0))).unwrap();
    state.handle_outgoing_packet(Request::Publish(publish(QoS::AtLeastOnce, 0))).unwrap();
    assert_eq!(state.clean(), vec![Request::Publish(publish(QoS::AtLeastOnce, 1))]);
    assert_eq!(state.collision, Some(publish(QoS::AtLeastOnce, 1)));
    // the acknowledgement is unsolicited now, but lets the publish go
    let err = receive(&mut state, Incoming::PubAck(PubAck { pkid: 1 })).unwrap_err();
    assert!(matches!(err, StateError::Unsolicited(1)));
    assert!(state.collision.is_none());
    assert_eq!(state.inflight(), 1);
}

#[test]
fn wrong_packets_are_refused() {
    let mut state = state_with(QoS::AtLeastOnce, 1);
    let wrong = vec![
        Incoming::Connect,
        Incoming::ConnAck(ConnAck { session_present: false, code: ConnectReturnCode::Success }),
        Incoming::Subscribe(Subscribe { pkid: 1, filters: vec![] }),
        Incoming::Unsubscribe(Unsubscribe { pkid: 1, topics: vec![] }),
        Incoming::PingReq,
        Incoming::Disconnect,
    ];
    let before = state.last_incoming;
    for packet in wrong {
        let err = receive(&mut state, packet).unwrap_err();
        assert!(matches!(err, StateError::WrongPacket));
    }
    assert!(state.events.is_empty());
    assert!(state.write.is_empty());
    assert_eq!(state.last_incoming, before);
}

#[test]
fn subscription_acks_are_passed_on() {
    let mut state = MqttState::new(10);
    let codes = vec![SubscribeReasonCode::Success(QoS::AtLeastOnce), SubscribeReasonCode::Failure];
    let suback = Incoming::SubAck(SubAck { pkid: 1, return_codes: codes });
    let unsuback = Incoming::UnsubAck(UnsubAck { pkid: 2 });
    receive(&mut state, suback.clone()).unwrap();
    receive(&mut state, unsuback.clone()).unwrap();
    assert_eq!(state.events.pop_front(), Some(Event::Incoming(suback)));
    assert_eq!(state.events.pop_front(), Some(Event::Incoming(unsuback)));
    assert!(state.write.is_empty());
}

#[test]
fn acks_above_the_limit_are_unsolicited() {
    let mut state = state_with(QoS::ExactlyOnce, 1);
    let acks = vec![
        Incoming::PubAck(PubAck { pkid: 11 }),
        Incoming::PubRec(PubRec { pkid: 11 }),
        Incoming::PubComp(PubComp { pkid: 11 }),
    ];
    for ack in acks {
        let err = receive(&mut state, ack).unwrap_err();
        assert!(matches!(err, StateError::Unsolicited(11)));
    }
    let err = receive(&mut state, Incoming::PubAck(PubAck { pkid: 65_535 })).unwrap_err();
    assert!(matches!(err, StateError::Unsolicited(65_535)));
    assert_eq!(state.inflight(), 1);
    assert!(state.events.is_empty());
    assert!(state.write.is_empty());
}

#[test]
fn redelivery_is_remembered_once() {
    let mut state = MqttState::new(10);
    for _ in 0..2 {
        receive(&mut state, Incoming::Publish(publish(QoS::ExactlyOnce, 5))).unwrap();
    }
    assert_eq!(&state.write[..], &[0x50, 2, 0, 5, 0x50, 2, 0, 5]);
    assert_eq!(state.incoming_pub[5], Some(5));
    assert_eq!(state.incoming_pub.iter().filter(|s| s.is_some()).count(), 1);
    assert_eq!(state.events.len(), 4);
    receive(&mut state, Incoming::PubRel(PubRel { pkid: 5 })).unwrap();
    assert_eq!(state.incoming_pub[5], None);
}

#[test]
fn packets_lose_only_what_they_ack() {
    let mut state = state_with(QoS::ExactlyOnce, 3);
    receive(&mut state, Incoming::PubRec(PubRec { pkid: 2 })).unwrap();
    receive(&mut state, Incoming::PubAck(PubAck { pkid: 3 })).unwrap();
    receive(&mut state, Incoming::Publish(publish(QoS::ExactlyOnce, 1))).unwrap();
    assert!(receive(&mut state, Incoming::PubComp(PubComp { pkid: 1 })).is_err());
    assert_eq!(
        state.clean(),
        vec![
            Request::Publish(publish(QoS::ExactlyOnce, 1)),
            Request::PubRel(PubRel { pkid: 2 }),
        ]
    );
}

#[test]
fn two_exchanges_under_one_id_keep_a_count_too_many() {
    let mut state = MqttState::new(1);
    for _ in 0..2 {
        state.handle_outgoing_packet(Request::Publish(publish(QoS::ExactlyOnce, 0))).unwrap();
        receive(&mut state, Incoming::PubRec(PubRec { pkid: 1 })).unwrap();
    }
    assert_eq!(state.inflight(), 2);
    receive(&mut state, Incoming::PubComp(PubComp { pkid: 1 })).unwrap();
    assert_eq!(state.inflight(), 1);
    assert!(state.clean().is_empty());
}
