//! Requests of the client.

use mquictt::error::{PacketError, StateError};
use mquictt::packet::{
    Event, Incoming, Outgoing, PubAck, PubComp, PubRec, PubRel, Publish, QoS, Request, Subscribe,
    SubscribeFilter, Unsubscribe,
};
use mquictt::state::MqttState;

fn publish(qos: QoS, pkid: u16) -> Publish {
    Publish { dup: false, qos, retain: false, topic: "a/b".to_string(), pkid, payload: vec![1, 2, 3] }
}

fn send(state: &mut MqttState, request: Request) -> Result<(), StateError> {
    assert!(state.accepts_request(&request));
    state.handle_outgoing_packet(request)
}

fn receive(state: &mut MqttState, packet: Incoming) -> Result<(), StateError> {
    assert!(state.accepts_packet(&packet));
    state.handle_incoming_packet(packet)
}

fn outgoing_events(state: &MqttState) -> Vec<Outgoing> {
    state
        .events
        .iter()
        .filter_map(|e| match e {
            Event::Outgoing(o) => Some(*o),
            Event::Incoming(_) => None,
        })
        .collect()
}

#[test]
fn new_state_is_empty() {
    let mut state = MqttState::new(10);
    assert_eq!(state.inflight(), 0);
    assert!(!state.await_pingresp);
    assert_eq!(state.collision_ping_count, 0);
    assert!(state.collision.is_none());
    assert!(state.events.is_empty());
    assert!(state.write.is_empty());
    assert!(state.clean().is_empty());
}

#[test]
fn qos0_publish_bytes() {
    let mut state = MqttState::new(10);
    let mut p = publish(QoS::AtMostOnce, 0);
    p.retain = true;
    send(&mut state, Request::Publish(p)).unwrap();
    assert_eq!(&state.write[..], &[0x31, 8, 0, 3, b'a', b'/', b'b', 1, 2, 3]);
    assert_eq!(state.inflight(), 0);
    assert_eq!(outgoing_events(&state), vec![Outgoing::Publish(0)]);
    assert!(state.clean().is_empty());
}

#[test]
fn qos1_publish_bytes() {
    let mut state = MqttState::new(10);
    send(&mut state, Request::Publish(publish(QoS::AtLeastOnce, 0))).unwrap();
    assert_eq!(&state.write[..], &[0x32, 10, 0, 3, b'a', b'/', b'b', 0, 1, 1, 2, 3]);
    assert_eq!(state.inflight(), 1);
    assert_eq!(outgoing_events(&state), vec![Outgoing::Publish(1)]);
}

#[test]
fn qos2_publish_bytes_with_dup_and_own_id() {
    let mut state = MqttState::new(1000);
    let mut p = publish(QoS::ExactlyOnce, 515);
    p.dup = true;
    send(&mut state, Request::Publish(p)).unwrap();
    assert_eq!(&state.write[..], &[0x3c, 10, 0, 3, b'a', b'/', b'b', 2, 3, 1, 2, 3]);
    assert_eq!(outgoing_events(&state), vec![Outgoing::Publish(515)]);
    // an id of its own does not use up the next one
    send(&mut state, Request::Publish(publish(QoS::AtLeastOnce, 0))).unwrap();
    assert_eq!(outgoing_events(&state), vec![Outgoing::Publish(515), Outgoing::Publish(1)]);
}

#[test]
fn two_byte_remaining_length() {
    let mut state = MqttState::new(10);
    let mut p = publish(QoS::AtMostOnce, 0);
    p.topic = "t".to_string();
    p.payload = vec![9; 200];
    send(&mut state, Request::Publish(p)).unwrap();
    // 2 + 1 + 200 = 203 = 75 + 1 * 128
    assert_eq!(&state.write[..6], &[0x30, 203, 1, 0, 1, b't']);
    assert_eq!(state.write.len(), 206);
}

#[test]
fn topic_is_utf8() {
    let mut state = MqttState::new(10);
    let mut p = publish(QoS::AtMostOnce, 0);
    p.topic = "\u{e9}".to_string();
    p.payload = vec![];
    send(&mut state, Request::Publish(p)).unwrap();
    assert_eq!(&state.write[..], &[0x30, 4, 0, 2, 0xc3, 0xa9]);
}

#[test]
fn packet_ids_run_to_the_limit_and_start_again() {
    let mut state = MqttState::new(3);
    for _ in 0..7 {
        let subscribe = Subscribe { pkid: 0, filters: vec![] };
        send(&mut state, Request::Subscribe(subscribe)).unwrap();
    }
    let ids: Vec<Outgoing> = vec![1, 2, 3, 1, 2, 3, 1].into_iter().map(Outgoing::Subscribe).collect();
    assert_eq!(outgoing_events(&state), ids);
}

#[test]
fn packet_ids_with_a_limit_of_one() {
    let mut state = MqttState::new(1);
    for _ in 0..2 {
        send(&mut state, Request::Publish(publish(QoS::AtLeastOnce, 0))).unwrap();
        receive(&mut state, Incoming::PubAck(PubAck { pkid: 1 })).unwrap();
    }
    assert_eq!(outgoing_events(&state), vec![Outgoing::Publish(1), Outgoing::Publish(1)]);
}

#[test]
fn subscribe_bytes() {
    let mut state = MqttState::new(10);
    let filters = vec![
        SubscribeFilter { path: "a".to_string(), qos: QoS::AtLeastOnce },
        SubscribeFilter { path: "b/#".to_string(), qos: QoS::ExactlyOnce },
    ];
    send(&mut state, Request::Subscribe(Subscribe { pkid: 77, filters })).unwrap();
    assert_eq!(&state.write[..], &[0x82, 12, 0, 1, 0, 1, b'a', 1, 0, 3, b'b', b'/', b'#', 2]);
    assert_eq!(outgoing_events(&state), vec![Outgoing::Subscribe(1)]);
}

#[test]
fn unsubscribe_bytes() {
    let mut state = MqttState::new(10);
    let topics = vec!["a".to_string(), "bc".to_string()];
    send(&mut state, Request::Unsubscribe(Unsubscribe { pkid: 0, topics })).unwrap();
    assert_eq!(&state.write[..], &[0xa2, 9, 0, 1, 0, 1, b'a', 0, 2, b'b', b'c']);
    assert_eq!(outgoing_events(&state), vec![Outgoing::Unsubscribe(1)]);
}

#[test]
fn disconnect_bytes() {
    let mut state = MqttState::new(10);
    send(&mut state, Request::Disconnect).unwrap();
    assert_eq!(&state.write[..], &[0xe0, 0]);
    assert_eq!(outgoing_events(&state), vec![Outgoing::Disconnect]);
}

#[test]
fn pubrel_is_recorded_and_sent() {
    let mut state = MqttState::new(10);
    send(&mut state, Request::PubRel(PubRel { pkid: 4 })).unwrap();
    send(&mut state, Request::PubRel(PubRel { pkid: 0 })).unwrap();
    assert_eq!(&state.write[..], &[0x62, 2, 0, 4, 0x62, 2, 0, 1]);
    assert_eq!(outgoing_events(&state), vec![Outgoing::PubRel(4), Outgoing::PubRel(1)]);
    assert_eq!(state.inflight(), 2);
    // a release that is recorded already is not counted twice
    send(&mut state, Request::PubRel(PubRel { pkid: 4 })).unwrap();
    assert_eq!(state.inflight(), 2);
    assert_eq!(
        state.clean(),
        vec![Request::PubRel(PubRel { pkid: 1 }), Request::PubRel(PubRel { pkid: 4 })]
    );
}

#[test]
fn ping_waits_for_answer() {
    let mut state = MqttState::new(10);
    send(&mut state, Request::PingReq).unwrap();
    assert_eq!(&state.write[..], &[0xc0, 0]);
    assert!(state.await_pingresp);
    let err = send(&mut state, Request::PingReq).unwrap_err();
    assert!(matches!(err, StateError::AwaitPingResp));
    assert_eq!(state.write.len(), 2);
    receive(&mut state, Incoming::PingResp).unwrap();
    assert!(!state.await_pingresp);
    send(&mut state, Request::PingReq).unwrap();
    assert_eq!(&state.write[..], &[0xc0, 0, 0xc0, 0]);
}

#[test]
fn used_id_holds_publish_back_until_acked() {
    let mut state = MqttState::new(1);
    send(&mut state, Request::Publish(publish(QoS::AtLeastOnce, 0))).unwrap();
    let sent = state.write.len();
    let mut second = publish(QoS::AtLeastOnce, 0);
    second.topic = "c".to_string();
    send(&mut state, Request::Publish(second.clone())).unwrap();
    assert_eq!(state.write.len(), sent);
    assert_eq!(state.inflight(), 1);
    second.pkid = 1;
    assert_eq!(state.collision, Some(second.clone()));
    assert_eq!(outgoing_events(&state), vec![Outgoing::Publish(1), Outgoing::AwaitAck(1)]);

    receive(&mut state, Incoming::PubAck(PubAck { pkid: 1 })).unwrap();
    assert_eq!(&state.write[sent..], &[0x32, 8, 0, 1, b'c', 0, 1, 1, 2, 3]);
    assert!(state.collision.is_none());
    assert_eq!(state.inflight(), 1);
    assert_eq!(state.clean(), vec![Request::Publish(second)]);
}

#[test]
fn second_ping_in_collision_times_out() {
    let mut state = MqttState::new(1);
    send(&mut state, Request::Publish(publish(QoS::AtLeastOnce, 0))).unwrap();
    send(&mut state, Request::Publish(publish(QoS::AtLeastOnce, 0))).unwrap();
    send(&mut state, Request::PingReq).unwrap();
    assert_eq!(state.collision_ping_count, 1);
    receive(&mut state, Incoming::PingResp).unwrap();
    let err = send(&mut state, Request::PingReq).unwrap_err();
    assert!(matches!(err, StateError::CollisionTimeout));
    assert_eq!(state.collision_ping_count, 2);
    receive(&mut state, Incoming::PubAck(PubAck { pkid: 1 })).unwrap();
    assert_eq!(state.collision_ping_count, 0);
    send(&mut state, Request::PingReq).unwrap();
}

#[test]
fn completion_sends_and_holds_waiting_publish() {
    let mut state = MqttState::new(1);
    let mut p2 = publish(QoS::ExactlyOnce, 0);
    p2.topic = "b".to_string();
    send(&mut state, Request::Publish(publish(QoS::ExactlyOnce, 0))).unwrap();
    send(&mut state, Request::Publish(p2.clone())).unwrap();
    p2.pkid = 1;
    receive(&mut state, Incoming::PubRec(PubRec { pkid: 1 })).unwrap();
    assert_eq!(state.collision, Some(p2.clone()));
    let sent = state.write.len();
    receive(&mut state, Incoming::PubComp(PubComp { pkid: 1 })).unwrap();
    assert!(state.collision.is_none());
    assert_eq!(&state.write[sent..], &[0x34, 8, 0, 1, b'b', 0, 1, 1, 2, 3]);
    assert_eq!(state.outgoing_pub[1], Some(p2));
    assert_eq!(state.outgoing_rel[1], None);
    assert_eq!(state.inflight(), 1);
    // it goes through an exchange of its own
    receive(&mut state, Incoming::PubRec(PubRec { pkid: 1 })).unwrap();
    receive(&mut state, Incoming::PubComp(PubComp { pkid: 1 })).unwrap();
    assert_eq!(state.inflight(), 0);
    assert!(state.clean().is_empty());
}

#[test]
fn completion_does_not_push_out_a_held_publish() {
    let mut state = MqttState::new(1);
    let held = publish(QoS::ExactlyOnce, 1);
    send(&mut state, Request::Publish(publish(QoS::ExactlyOnce, 0))).unwrap();
    receive(&mut state, Incoming::PubRec(PubRec { pkid: 1 })).unwrap();
    send(&mut state, Request::Publish(publish(QoS::ExactlyOnce, 0))).unwrap();
    let mut waiting = publish(QoS::ExactlyOnce, 0);
    waiting.topic = "w".to_string();
    send(&mut state, Request::Publish(waiting)).unwrap();
    assert_eq!(state.inflight(), 2);
    receive(&mut state, Incoming::PubComp(PubComp { pkid: 1 })).unwrap();
    assert_eq!(state.inflight(), 1);
    assert_eq!(state.clean(), vec![Request::Publish(held)]);
}

#[test]
fn unsolicited_completion_lets_waiting_publish_go() {
    let mut state = MqttState::new(1);
    send(&mut state, Request::Publish(publish(QoS::AtLeastOnce, 0))).unwrap();
    send(&mut state, Request::Publish(publish(QoS::AtLeastOnce, 0))).unwrap();
    state.clean();
    let err = receive(&mut state, Incoming::PubComp(PubComp { pkid: 1 })).unwrap_err();
    assert!(matches!(err, StateError::Unsolicited(1)));
    assert!(state.collision.is_none());
    assert_eq!(state.outgoing_pub[1], Some(publish(QoS::AtLeastOnce, 1)));
    assert_eq!(state.inflight(), 1);
}

#[test]
fn too_long_waiting_publish_leaves_the_release() {
    let mut state = MqttState::new(1);
    send(&mut state, Request::Publish(publish(QoS::ExactlyOnce, 0))).unwrap();
    let mut waiting = publish(QoS::ExactlyOnce, 0);
    waiting.payload = vec![0; 268_435_455 - 6];
    send(&mut state, Request::Publish(waiting)).unwrap();
    receive(&mut state, Incoming::PubRec(PubRec { pkid: 1 })).unwrap();
    let sent = state.write.len();
    let err = receive(&mut state, Incoming::PubComp(PubComp { pkid: 1 })).unwrap_err();
    assert!(matches!(err, StateError::Deserialization(PacketError::PayloadTooLong)));
    assert_eq!(&state.write[sent..], &[0x34]);
    assert!(state.collision.is_none());
    assert_eq!(state.inflight(), 1);
    assert_eq!(state.clean(), vec![Request::PubRel(PubRel { pkid: 1 })]);
}

#[test]
fn too_long_publish_leaves_its_first_byte() {
    let mut state = MqttState::new(10);
    let mut p = publish(QoS::AtLeastOnce, 0);
    // 2 + 3 + 2 more than the payload: one over
    p.payload = vec![0; 268_435_455 - 6];
    let err = send(&mut state, Request::Publish(p)).unwrap_err();
    assert!(matches!(err, StateError::Deserialization(PacketError::PayloadTooLong)));
    assert_eq!(&state.write[..], &[0x32]);
    // it is held all the same
    assert_eq!(state.inflight(), 1);
    assert!(state.events.is_empty());
}

#[test]
fn longest_publish_is_sent() {
    let mut state = MqttState::new(10);
    let mut p = publish(QoS::AtMostOnce, 0);
    p.payload = vec![0; 268_435_455 - 5];
    send(&mut state, Request::Publish(p)).unwrap();
    assert_eq!(state.write.len(), 268_435_460);
    assert_eq!(&state.write[..5], &[0x30, 0xff, 0xff, 0xff, 0x7f]);
}

#[test]
fn too_long_subscribe_and_unsubscribe() {
    let mut state = MqttState::new(10);
    let path = String::from_utf8(vec![b'x'; 268_435_455]).unwrap();
    let topics = vec![path.clone()];
    let filters = vec![SubscribeFilter { path, qos: QoS::AtMostOnce }];
    let err = send(&mut state, Request::Subscribe(Subscribe { pkid: 0, filters })).unwrap_err();
    assert!(matches!(err, StateError::Deserialization(PacketError::PayloadTooLong)));
    let err = send(&mut state, Request::Unsubscribe(Unsubscribe { pkid: 0, topics })).unwrap_err();
    assert!(matches!(err, StateError::Deserialization(PacketError::PayloadTooLong)));
    assert_eq!(&state.write[..], &[0x82, 0xa2]);
    // both ids are used up
    send(&mut state, Request::Publish(publish(QoS::AtLeastOnce, 0))).unwrap();
    assert_eq!(outgoing_events(&state), vec![Outgoing::Publish(3)]);
}

#[test]
fn requests_out_of_range_are_not_accepted() {
    let state = MqttState::new(2);
    assert!(!state.accepts_request(&Request::Publish(publish(QoS::AtLeastOnce, 3))));
    assert!(state.accepts_request(&Request::Publish(publish(QoS::AtMostOnce, 3))));
    assert!(!state.accepts_request(&Request::PubRel(PubRel { pkid: 3 })));
    assert!(!state.accepts_request(&Request::PubAck(PubAck { pkid: 1 })));
    assert!(!state.accepts_request(&Request::PingResp));
    assert!(state.accepts_request(&Request::Disconnect));
    // without packet ids for publishes, only those go that need none
    let none = MqttState::new(0);
    assert!(!none.accepts_request(&Request::Publish(publish(QoS::ExactlyOnce, 0))));
    assert!(none.accepts_request(&Request::Publish(publish(QoS::AtMostOnce, 0))));
    assert!(none.accepts_request(&Request::Subscribe(Subscribe { pkid: 0, filters: vec![] })));
}

#[test]
fn release_sent_again_completes() {
    let mut state = MqttState::new(10);
    send(&mut state, Request::PubRel(PubRel { pkid: 1 })).unwrap();
    assert_eq!(state.inflight(), 1);
    receive(&mut state, Incoming::PubComp(PubComp { pkid: 1 })).unwrap();
    assert_eq!(state.outgoing_rel[1], None);
    assert_eq!(state.inflight(), 0);
    assert!(state.clean().is_empty());
}

#[test]
fn held_publishes_survive_requests() {
    let mut state = MqttState::new(2);
    send(&mut state, Request::Publish(publish(QoS::AtLeastOnce, 0))).unwrap();
    let held = state.outgoing_pub[1].clone();
    assert_eq!(held, Some(publish(QoS::AtLeastOnce, 1)));
    send(&mut state, Request::Publish(publish(QoS::ExactlyOnce, 1))).unwrap();
    send(&mut state, Request::PubRel(PubRel { pkid: 1 })).unwrap();
    send(&mut state, Request::Publish(publish(QoS::AtMostOnce, 1))).unwrap();
    assert_eq!(state.outgoing_pub[1], held);
    assert_eq!(state.inflight(), 2);
}

#[test]
fn clock_moves_only_with_success() {
    let mut state = MqttState::new(10);
    let start = state.last_outgoing;
    send(&mut state, Request::PingReq).unwrap();
    let ping = state.last_outgoing;
    assert!(ping >= start);
    assert!(send(&mut state, Request::PingReq).is_err());
    assert_eq!(state.last_outgoing, ping);
}

#[test]
fn clock_takes_the_given_times() {
    let start = std::time::Instant::now();
    let at = |s: u64| start + std::time::Duration::from_secs(s);
    let mut state = MqttState::new_at(10, at(1), at(2));
    assert_eq!((state.last_incoming, state.last_outgoing), (at(1), at(2)));
    state.handle_outgoing_packet_at(Request::PingReq, at(3)).unwrap();
    assert_eq!((state.last_incoming, state.last_outgoing), (at(1), at(3)));
    assert!(state.handle_outgoing_packet_at(Request::PingReq, at(4)).is_err());
    assert_eq!((state.last_incoming, state.last_outgoing), (at(1), at(3)));
    state.handle_incoming_packet_at(Incoming::PingResp, at(5)).unwrap();
    assert_eq!((state.last_incoming, state.last_outgoing), (at(5), at(3)));
    assert!(state.handle_incoming_packet_at(Incoming::PingReq, at(6)).is_err());
    assert_eq!((state.last_incoming, state.last_outgoing), (at(5), at(3)));
}

#[test]
fn clone_has_the_same_bytes() {
    let mut state = MqttState::new(10);
    send(&mut state, Request::Disconnect).unwrap();
    let copy = state.clone();
    send(&mut state, Request::Disconnect).unwrap();
    assert_eq!(&copy.write[..], &[0xe0, 0]);
    assert_eq!(copy.last_incoming, state.last_incoming);
}

#[test]
fn errors_convert() {
    let io = std::io::Error::new(std::io::ErrorKind::Other, "gone");
    assert!(matches!(StateError::from(io), StateError::Io(_)));
    let codec = mqttbytes::Error::PacketIdZero;
    assert!(matches!(
        StateError::from(codec),
        StateError::Deserialization(PacketError::Codec(mqttbytes::Error::PacketIdZero))
    ));
}
