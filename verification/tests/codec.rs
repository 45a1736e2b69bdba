use buildengine::net::codec::{
    deserialize_packet, get_packet_length, seralize_packet, DecodeError, EncodeError,
};
use buildengine::net::{NetworkError, NetworkPacket, NET_MAGIC_NUMBER};

fn frame_of(packet: &NetworkPacket) -> Vec<u8> {
    seralize_packet(packet).expect("packet should fit a frame")
}

fn header_of(frame: &[u8]) -> [u8; 6] {
    frame[..6].try_into().unwrap()
}

#[test]
fn round_trip_init() {
    let packet = NetworkPacket::Init {
        version: String::from("1.0.0"),
        should_crash: true,
    };
    let frame = frame_of(&packet);
    let len = get_packet_length(header_of(&frame)).expect("magic number should match");
    assert_eq!(len as usize, frame.len() - 6);
    let decoded = deserialize_packet(&frame[6..]).expect("payload should decode");
    assert_eq!(decoded, packet);
}

#[test]
fn round_trip_error_version_mismatch() {
    let packet = NetworkPacket::Error(NetworkError::VersionMismatch(
        String::from("2.0"),
        String::from("1.0"),
    ));
    let frame = frame_of(&packet);
    let len = get_packet_length(header_of(&frame)).unwrap();
    assert_eq!(len as usize, frame.len() - 6);
    let decoded = deserialize_packet(&frame[6..]).unwrap();
    assert_eq!(decoded, packet);
}

#[test]
fn round_trip_error_should_crash() {
    let packet = NetworkPacket::Error(NetworkError::ShouldCrashBothTrue);
    let frame = frame_of(&packet);
    let decoded = deserialize_packet(&frame[6..]).unwrap();
    assert_eq!(decoded, packet);
}

#[test]
fn round_trip_non_ascii_version() {
    // Exercises the UTF-8 boundary: the version survives encoding byte for
    // byte and comes back as the same string.
    let packet = NetworkPacket::Init {
        version: String::from("1.0-\u{e9}\u{2206}"),
        should_crash: false,
    };
    let frame = frame_of(&packet);
    let decoded = deserialize_packet(&frame[6..]).unwrap();
    assert_eq!(decoded, packet);
}

#[test]
fn round_trip_empty_version() {
    let packet = NetworkPacket::Init {
        version: String::new(),
        should_crash: true,
    };
    let frame = frame_of(&packet);
    let decoded = deserialize_packet(&frame[6..]).unwrap();
    assert_eq!(decoded, packet);
}

#[test]
fn payload_length_boundary() {
    // An Init payload is 13 bytes plus the version: 65522 version bytes hit
    // the 16-bit limit exactly, one more overflows it.
    let at_limit = NetworkPacket::Init {
        version: "x".repeat(65_522),
        should_crash: true,
    };
    let frame = seralize_packet(&at_limit).expect("payload of exactly 65535 bytes fits");
    assert_eq!(frame.len(), 6 + 65_535);
    assert_eq!(deserialize_packet(&frame[6..]).unwrap(), at_limit);

    let over_limit = NetworkPacket::Init {
        version: "x".repeat(65_523),
        should_crash: true,
    };
    assert_eq!(seralize_packet(&over_limit), Err(EncodeError::TooLarge));
}

#[test]
fn magic_number_guard() {
    // Any 6-byte buffer whose first 4 bytes differ from the magic number is
    // refused, regardless of the trailing two bytes.
    assert_eq!(get_packet_length([0, 0, 0, 0, 7, 7]), None);
    assert_eq!(get_packet_length([0x43, 0x10, 0x01, 0xCA, 1, 0]), None);
    assert_eq!(get_packet_length([0x44, 0x10, 0x01, 0xCB, 255, 255]), None);
    // The magic number itself passes, and the length is little-endian.
    assert_eq!(NET_MAGIC_NUMBER, 0xCB011043);
    assert_eq!(
        get_packet_length([0x43, 0x10, 0x01, 0xCB, 0x02, 0x01]),
        Some(0x0102)
    );
}

#[test]
fn exact_frame_bytes() {
    let packet = NetworkPacket::Init {
        version: String::from("A"),
        should_crash: false,
    };
    let frame = frame_of(&packet);
    let expected: Vec<u8> = vec![
        0x43, 0x10, 0x01, 0xCB, // magic number, little-endian
        14, 0, // payload length: 4 + 8 + 1 + 1
        0, 0, 0, 0, // packet tag: Init
        1, 0, 0, 0, 0, 0, 0, 0, // version byte count
        65, // "A"
        0,  // should_crash: false
    ];
    assert_eq!(frame, expected);
}

#[test]
fn decode_unexpected_end() {
    assert_eq!(deserialize_packet(&[]), Err(DecodeError::UnexpectedEnd));
    assert_eq!(deserialize_packet(&[0, 0, 0]), Err(DecodeError::UnexpectedEnd));
    // Init tag, then a string announcing more bytes than remain.
    assert_eq!(
        deserialize_packet(&[0, 0, 0, 0, 9, 0, 0, 0, 0, 0, 0, 0, 65]),
        Err(DecodeError::UnexpectedEnd)
    );
}

#[test]
fn decode_bad_packet_tag() {
    assert_eq!(
        deserialize_packet(&[7, 0, 0, 0]),
        Err(DecodeError::BadPacketTag)
    );
}

#[test]
fn decode_bad_error_tag() {
    // Error packet whose kind tag names no variant.
    assert_eq!(
        deserialize_packet(&[1, 0, 0, 0, 9, 0, 0, 0]),
        Err(DecodeError::BadErrorTag)
    );
}

#[test]
fn decode_bad_bool() {
    // Init with an empty version and a bool byte of 2.
    assert_eq!(
        deserialize_packet(&[0, 0, 0, 0, 0, 0, 0, 0, 0, 0, 0, 0, 2]),
        Err(DecodeError::BadBool)
    );
}

#[test]
fn decode_bad_utf8() {
    // Init whose 1-byte version is 0xFF, not UTF-8.
    assert_eq!(
        deserialize_packet(&[0, 0, 0, 0, 1, 0, 0, 0, 0, 0, 0, 0, 0xFF, 0]),
        Err(DecodeError::BadUtf8)
    );
}

#[test]
fn decode_trailing_bytes() {
    let packet = NetworkPacket::Error(NetworkError::ShouldCrashBothTrue);
    let mut payload = frame_of(&packet)[6..].to_vec();
    payload.push(0);
    assert_eq!(
        deserialize_packet(&payload),
        Err(DecodeError::TrailingBytes)
    );
}

#[test]
fn encode_rejects_oversized_payload() {
    // 70,000 version bytes overflow the 16-bit length field: the packet is
    // refused, never truncated.
    let packet = NetworkPacket::Init {
        version: "x".repeat(70_000),
        should_crash: true,
    };
    assert_eq!(seralize_packet(&packet), Err(EncodeError::TooLarge));
}
