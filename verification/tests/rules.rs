//! The rules of the broker and of the socket.

use mquictt::broker::{closing, server_thread_name, Closing, LinkEnd, Notice};
use mquictt::transport::{check_bound, step, FailureKind, SocketFailure};

#[test]
fn last_will_is_for_lost_clients() {
    assert_eq!(closing(LinkEnd::Stopped), Closing { execute_will: true, notice: Notice::Stopped });
    assert_eq!(
        closing(LinkEnd::Io { aborted: true }),
        Closing { execute_will: true, notice: Notice::Closed }
    );
    assert_eq!(
        closing(LinkEnd::Io { aborted: false }),
        Closing { execute_will: true, notice: Notice::Failed }
    );
    assert_eq!(
        closing(LinkEnd::Disconnect),
        Closing { execute_will: false, notice: Notice::Disconnected }
    );
    assert_eq!(closing(LinkEnd::Other), Closing { execute_will: true, notice: Notice::Failed });
}

#[test]
fn server_threads_are_named() {
    assert_eq!(server_thread_name("1"), "rumqttd-server-1");
    assert_eq!(server_thread_name(""), "rumqttd-server-");
}

#[test]
fn socket_failures() {
    let all = [
        (SocketFailure::Bind, FailureKind::InvalidInput, "could not resolve to any address"),
        (SocketFailure::FromStd, FailureKind::InvalidInput, "could not resolve from std socket"),
        (SocketFailure::LocalAddress, FailureKind::NotFound, "could not resolve to local address"),
        (SocketFailure::NotBound, FailureKind::ConnectionAborted, "underlying socket not bound"),
        (SocketFailure::Handshake, FailureKind::ConnectionRefused, "could not connect"),
    ];
    for (failure, kind, message) in all {
        assert_eq!(failure.kind(), kind);
        assert_eq!(failure.message(), message);
    }
}

#[test]
fn only_bound_sockets_connect() {
    assert_eq!(check_bound(true), Ok(()));
    assert_eq!(check_bound(false), Err(SocketFailure::NotBound));
}

#[test]
fn failed_steps_are_named() {
    let done: Result<u8, String> = Ok(3);
    assert_eq!(step(done, SocketFailure::Bind), Ok(3));
    let done: Result<u8, String> = Err("no route".to_string());
    assert_eq!(step(done, SocketFailure::Handshake), Err(SocketFailure::Handshake));
}
