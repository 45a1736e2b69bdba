use buildengine::net::handshake::handle_packet;
use buildengine::net::{NetworkError, NetworkPacket};

fn init(version: &str, should_crash: bool) -> NetworkPacket {
    NetworkPacket::Init {
        version: String::from(version),
        should_crash,
    }
}

#[test]
fn version_mismatch_both_directions() {
    // Two crash-tolerant peers with versions "1.0" and "2.0": each queues a
    // mismatch error for the other, carrying the version from the packet
    // first and its own second, and neither kills the connection.
    let r = handle_packet(&String::from("1.0"), true, init("2.0", true));
    assert_eq!(
        r.replies,
        vec![NetworkPacket::Error(NetworkError::VersionMismatch(
            String::from("2.0"),
            String::from("1.0"),
        ))]
    );
    assert!(!r.kill);
    assert!(r.fatal.is_none());

    let r = handle_packet(&String::from("2.0"), true, init("1.0", true));
    assert_eq!(
        r.replies,
        vec![NetworkPacket::Error(NetworkError::VersionMismatch(
            String::from("1.0"),
            String::from("2.0"),
        ))]
    );
    assert!(!r.kill);
    assert!(r.fatal.is_none());
}

#[test]
fn mutual_no_crash_kills() {
    // Both peers present should_crash == false: the handshake cannot
    // proceed safely, so the policy error is queued and the connection dies.
    let r = handle_packet(&String::from("1.0"), false, init("1.0", false));
    assert_eq!(
        r.replies,
        vec![NetworkPacket::Error(NetworkError::ShouldCrashBothTrue)]
    );
    assert!(r.kill);
    assert!(r.fatal.is_none());
}

#[test]
fn mutual_no_crash_and_mismatch_queue_both() {
    // Both checks fire independently: policy error first, then the
    // mismatch; the kill comes from the policy path.
    let r = handle_packet(&String::from("1.0"), false, init("2.0", false));
    assert_eq!(
        r.replies,
        vec![
            NetworkPacket::Error(NetworkError::ShouldCrashBothTrue),
            NetworkPacket::Error(NetworkError::VersionMismatch(
                String::from("2.0"),
                String::from("1.0"),
            )),
        ]
    );
    assert!(r.kill);
}

#[test]
fn clean_handshake_answers_nothing() {
    let r = handle_packet(&String::from("1.0"), true, init("1.0", true));
    assert!(r.replies.is_empty());
    assert!(!r.kill);
    assert!(r.fatal.is_none());
}

#[test]
fn one_sided_crash_tolerance_is_enough() {
    // Only one side must be willing to crash: no policy error either way.
    let r = handle_packet(&String::from("1.0"), true, init("1.0", false));
    assert!(r.replies.is_empty());
    assert!(!r.kill);
    let r = handle_packet(&String::from("1.0"), false, init("1.0", true));
    assert!(r.replies.is_empty());
    assert!(!r.kill);
}

#[test]
fn error_text_carries_both_versions() {
    let err = NetworkError::VersionMismatch(String::from("2.0"), String::from("1.0"));
    assert_eq!(
        err.message(),
        "VersionMismatch: The versions of the client and server attempting to connect \
         mismatch. ver1: 2.0, ver2: 1.0"
    );
    assert_eq!(
        err.description(),
        "VersionMismatch: The versions of the client and server attempting to connect mismatch."
    );
    let err = NetworkError::ShouldCrashBothTrue;
    assert_eq!(
        err.message(),
        "ShouldCrashBothTrue: Both peers have should_crash == false."
    );
    assert_eq!(
        err.description(),
        "ShouldCrashBothTrue: Both peers have should_crash == false."
    );
}

#[test]
fn error_under_crash_policy_is_fatal() {
    let r = handle_packet(
        &String::from("1.0"),
        true,
        NetworkPacket::Error(NetworkError::ShouldCrashBothTrue),
    );
    assert!(r.replies.is_empty());
    assert!(!r.kill);
    assert_eq!(r.fatal, Some(NetworkError::ShouldCrashBothTrue));
}

#[test]
fn error_under_no_crash_policy_disconnects() {
    // The protocol prescribes no recovery on this path; the documented
    // choice here is to disconnect and keep the process alive.
    let r = handle_packet(
        &String::from("1.0"),
        false,
        NetworkPacket::Error(NetworkError::VersionMismatch(
            String::from("2.0"),
            String::from("1.0"),
        )),
    );
    assert!(r.replies.is_empty());
    assert!(r.kill);
    assert!(r.fatal.is_none());
}
