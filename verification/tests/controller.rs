use buildengine::net::codec::seralize_packet;
use buildengine::net::table::Handle;
use buildengine::net::{
    ConnectionMessage, Controller, ControllerMessage, NetworkError, NetworkPacket,
    MAX_CONNECTED_CLIENTS,
};

fn controller(version: &str, should_crash: bool) -> Controller {
    Controller::new_empty(String::from(version), should_crash)
}

fn opened_handle(directive: &ConnectionMessage) -> Handle {
    match directive {
        ConnectionMessage::Opened(h) => *h,
        other => panic!("expected Opened, got {:?}", other),
    }
}

/// Adds one socket the way the client role does: no greeting queued.
fn add_socket(c: &mut Controller, addr: &str) -> Handle {
    c.submit(ControllerMessage::AddSocket(String::from(addr)));
    let out = c.check_controller_channel();
    assert_eq!(out.len(), 1);
    opened_handle(&out[0])
}

fn frame_of(packet: &NetworkPacket) -> Vec<u8> {
    seralize_packet(packet).unwrap()
}

#[test]
fn accept_queues_init_greeting() {
    let mut c = controller("1.0", true);
    let out = c.on_accept(String::from("peer:1"));
    let h = opened_handle(&out);
    let conn = c.raw.connections.get(h).unwrap();
    assert_eq!(conn.addr, "peer:1");
    assert_eq!(
        conn.outbound,
        vec![NetworkPacket::Init {
            version: String::from("1.0"),
            should_crash: true,
        }]
    );
}

#[test]
fn accept_refused_when_full() {
    let mut c = controller("1.0", true);
    for i in 0..MAX_CONNECTED_CLIENTS {
        let out = c.on_accept(format!("peer:{}", i));
        opened_handle(&out);
    }
    assert_eq!(c.raw.connections.len(), MAX_CONNECTED_CLIENTS);
    let out = c.on_accept(String::from("one too many"));
    assert!(matches!(out, ConnectionMessage::Refused));
    assert_eq!(c.raw.connections.len(), MAX_CONNECTED_CLIENTS);
}

#[test]
fn send_ordering_single_flush() {
    // Enqueue A, B, C, flush on one writable event: the frames come out in
    // exactly that order.
    let mut c = controller("1.0", true);
    let h = add_socket(&mut c, "peer:1");
    let a = NetworkPacket::Init {
        version: String::from("1.0"),
        should_crash: true,
    };
    let b = NetworkPacket::Error(NetworkError::ShouldCrashBothTrue);
    let x = NetworkPacket::Error(NetworkError::VersionMismatch(
        String::from("2.0"),
        String::from("1.0"),
    ));
    c.submit(ControllerMessage::Send(h, a.clone()));
    c.submit(ControllerMessage::Send(h, b.clone()));
    c.submit(ControllerMessage::Send(h, x.clone()));
    let out = c.check_controller_channel();
    assert_eq!(out.len(), 3);
    for directive in &out {
        assert!(matches!(directive, ConnectionMessage::DoNothing));
    }
    match c.on_writable(h) {
        ConnectionMessage::Write(h2, frames) => {
            assert_eq!(h2, h);
            assert_eq!(frames, vec![frame_of(&a), frame_of(&b), frame_of(&x)]);
        }
        other => panic!("expected Write, got {:?}", other),
    }
    // The queue was swapped out: a second flush writes nothing.
    match c.on_writable(h) {
        ConnectionMessage::Write(_, frames) => assert!(frames.is_empty()),
        other => panic!("expected Write, got {:?}", other),
    }
}

#[test]
fn send_refuses_oversized_packet() {
    let mut c = controller("1.0", true);
    let h = add_socket(&mut c, "peer:1");
    let oversized = NetworkPacket::Init {
        version: "x".repeat(70_000),
        should_crash: true,
    };
    c.submit(ControllerMessage::Send(h, oversized));
    let out = c.check_controller_channel();
    assert_eq!(out.len(), 1);
    assert!(matches!(out[0], ConnectionMessage::TooLarge(h2) if h2 == h));
    assert!(c.raw.connections.get(h).unwrap().outbound.is_empty());
}

#[test]
fn shutdown_closes_everything_and_later_commands_are_noops() {
    let mut c = controller("1.0", true);
    let h1 = add_socket(&mut c, "peer:1");
    let h2 = add_socket(&mut c, "peer:2");
    c.submit(ControllerMessage::Shutdown);
    let out = c.check_controller_channel();
    // Every live connection gets a Close, then the loop is told to stop.
    assert_eq!(out.len(), 3);
    assert!(matches!(out[2], ConnectionMessage::Stopped));
    let mut closed = Vec::new();
    for directive in &out[..2] {
        match directive {
            ConnectionMessage::Close(h) => closed.push(*h),
            other => panic!("expected Close, got {:?}", other),
        }
    }
    assert!(closed.contains(&h1));
    assert!(closed.contains(&h2));
    assert!(!c.running);

    // A command submitted after shutdown is an explicit no-op, never a hang.
    c.submit(ControllerMessage::Kill(h1));
    c.submit(ControllerMessage::AddSocket(String::from("late")));
    let out = c.check_controller_channel();
    assert_eq!(out.len(), 2);
    assert!(matches!(out[0], ConnectionMessage::NotRunning));
    assert!(matches!(out[1], ConnectionMessage::NotRunning));
    // Events after shutdown are no-ops too.
    assert!(matches!(
        c.on_accept(String::from("late")),
        ConnectionMessage::NotRunning
    ));
    assert!(matches!(c.on_writable(h1), ConnectionMessage::NotRunning));
}

#[test]
fn kill_and_stale_kill() {
    let mut c = controller("1.0", true);
    let h = add_socket(&mut c, "peer:1");
    c.submit(ControllerMessage::Kill(h));
    let out = c.check_controller_channel();
    assert!(matches!(out[0], ConnectionMessage::Close(h2) if h2 == h));
    assert_eq!(c.raw.connections.len(), 0);
    // Killing the same handle again is a loud, typed misuse report.
    c.submit(ControllerMessage::Kill(h));
    let out = c.check_controller_channel();
    assert!(matches!(out[0], ConnectionMessage::Stale(h2) if h2 == h));
}

#[test]
fn bad_magic_number_kills_connection() {
    let mut c = controller("1.0", true);
    let h = add_socket(&mut c, "peer:1");
    let out = c.on_readable_header(h, [0, 1, 2, 3, 4, 5]);
    assert!(matches!(out, ConnectionMessage::Close(h2) if h2 == h));
    assert_eq!(c.raw.connections.len(), 0);
}

#[test]
fn good_header_asks_for_payload() {
    let mut c = controller("1.0", true);
    let h = add_socket(&mut c, "peer:1");
    let frame = frame_of(&NetworkPacket::Init {
        version: String::from("2.0"),
        should_crash: true,
    });
    let header: [u8; 6] = frame[..6].try_into().unwrap();
    match c.on_readable_header(h, header) {
        ConnectionMessage::ReadPayload(h2, n) => {
            assert_eq!(h2, h);
            assert_eq!(n as usize, frame.len() - 6);
        }
        other => panic!("expected ReadPayload, got {:?}", other),
    }
}

#[test]
fn version_mismatch_queues_error_without_kill() {
    let mut c = controller("1.0", true);
    let h = add_socket(&mut c, "peer:1");
    let frame = frame_of(&NetworkPacket::Init {
        version: String::from("2.0"),
        should_crash: true,
    });
    let out = c.on_readable_payload(h, &frame[6..]);
    assert_eq!(out.len(), 1);
    assert!(matches!(out[0], ConnectionMessage::DoNothing));
    // The connection lives, with the direction-correct error queued.
    assert_eq!(
        c.raw.connections.get(h).unwrap().outbound,
        vec![NetworkPacket::Error(NetworkError::VersionMismatch(
            String::from("2.0"),
            String::from("1.0"),
        ))]
    );
}

#[test]
fn mutual_no_crash_flushes_error_then_kills() {
    let mut c = controller("1.0", false);
    let h = add_socket(&mut c, "peer:1");
    let frame = frame_of(&NetworkPacket::Init {
        version: String::from("1.0"),
        should_crash: false,
    });
    let before = c.raw.connections.len();
    let out = c.on_readable_payload(h, &frame[6..]);
    assert_eq!(out.len(), 2);
    match &out[0] {
        ConnectionMessage::Write(h2, frames) => {
            assert_eq!(*h2, h);
            assert_eq!(
                frames,
                &vec![frame_of(&NetworkPacket::Error(
                    NetworkError::ShouldCrashBothTrue
                ))]
            );
        }
        other => panic!("expected Write, got {:?}", other),
    }
    assert!(matches!(out[1], ConnectionMessage::Close(h2) if h2 == h));
    // That slot is gone: the table shrank by one.
    assert_eq!(c.raw.connections.len(), before - 1);
}

#[test]
fn error_packet_under_crash_policy_aborts() {
    let mut c = controller("1.0", true);
    let h = add_socket(&mut c, "peer:1");
    let frame = frame_of(&NetworkPacket::Error(NetworkError::ShouldCrashBothTrue));
    let out = c.on_readable_payload(h, &frame[6..]);
    assert_eq!(out.len(), 1);
    match &out[0] {
        ConnectionMessage::Crash(e) => {
            assert_eq!(*e, NetworkError::ShouldCrashBothTrue);
        }
        other => panic!("expected Crash, got {:?}", other),
    }
}

#[test]
fn malformed_payload_kills_connection() {
    let mut c = controller("1.0", true);
    let h = add_socket(&mut c, "peer:1");
    let out = c.on_readable_payload(h, &[9, 9, 9, 9]);
    assert_eq!(out.len(), 1);
    assert!(matches!(out[0], ConnectionMessage::Close(h2) if h2 == h));
    assert_eq!(c.raw.connections.len(), 0);
}

#[test]
fn io_error_kills_only_that_connection() {
    let mut c = controller("1.0", true);
    let h1 = add_socket(&mut c, "peer:1");
    let h2 = add_socket(&mut c, "peer:2");
    let out = c.on_io_error(h1);
    assert!(matches!(out, ConnectionMessage::Close(h) if h == h1));
    assert!(c.raw.connections.get(h1).is_err());
    assert!(c.raw.connections.get(h2).is_ok());
}

/// Feeds every frame of one flushed stream into the receiving controller,
/// returning all directives the payloads produced.
fn deliver(
    receiver: &mut Controller,
    h: Handle,
    flushed: ConnectionMessage,
) -> Vec<ConnectionMessage> {
    let frames = match flushed {
        ConnectionMessage::Write(_, frames) => frames,
        other => panic!("expected Write, got {:?}", other),
    };
    let mut produced = Vec::new();
    for frame in frames {
        let header: [u8; 6] = frame[..6].try_into().unwrap();
        match receiver.on_readable_header(h, header) {
            ConnectionMessage::ReadPayload(h2, n) => {
                assert_eq!(h2, h);
                assert_eq!(n as usize, frame.len() - 6);
                produced.extend(receiver.on_readable_payload(h, &frame[6..]));
            }
            other => panic!("expected ReadPayload, got {:?}", other),
        }
    }
    produced
}

#[test]
fn end_to_end_matching_versions() {
    // A server-side and a client-side controller with matching versions and
    // should_crash on both sides: the whole handshake passes with no error
    // packets and both connections stay open.
    let mut server = controller("1.0", true);
    let mut client = controller("1.0", true);

    // The server accepts the peer and queues its greeting; the client
    // registers its socket and sends its own Init, as the client role does.
    let server_h = opened_handle(&server.on_accept(String::from("client:1")));
    let client_h = add_socket(&mut client, "server:1");
    client.submit(ControllerMessage::Send(
        client_h,
        NetworkPacket::Init {
            version: String::from("1.0"),
            should_crash: true,
        },
    ));
    client.check_controller_channel();

    // Both sides flush and each delivers its frames to the other.
    let from_server = server.on_writable(server_h);
    let from_client = client.on_writable(client_h);
    let at_client = deliver(&mut client, client_h, from_server);
    let at_server = deliver(&mut server, server_h, from_client);
    for directive in at_client.iter().chain(at_server.iter()) {
        assert!(matches!(directive, ConnectionMessage::DoNothing));
    }

    // No error was queued anywhere and both connections are still live.
    assert!(server.raw.connections.get(server_h).unwrap().outbound.is_empty());
    assert!(client.raw.connections.get(client_h).unwrap().outbound.is_empty());
    assert_eq!(server.raw.connections.len(), 1);
    assert_eq!(client.raw.connections.len(), 1);
}

#[test]
fn add_listener_counts() {
    let mut c = controller("1.0", true);
    c.add_listener();
    c.submit(ControllerMessage::AddListener);
    let out = c.check_controller_channel();
    assert!(matches!(out[0], ConnectionMessage::DoNothing));
    assert_eq!(c.listeners, 2);
    assert!(c.check_should_crash());
}
