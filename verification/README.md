# mquictt

The session logic of an MQTT 3.1.1 client and the rules of a broker that talk over
QUIC, verified with Verus.

- `src/packet.rs`: packets, requests and notifications as plain values.
- `src/wire.rs`: the bytes of the packets that a client sends, and the calls into
  `mqttbytes` and `bytes` that write them.
- `src/session.rs`: what a session is and how requests and packets change it.
- `src/state.rs`: `MqttState`, the session that runs.
- `src/laws.rs`: what holds of a session across operations.
- `src/error.rs`: the errors of a session.
- `src/broker.rs`, `src/transport.rs`: the decisions of the broker and of the socket.
- `app/`: sockets, threads, configuration files and logs around the library.
