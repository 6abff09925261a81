use flight_core::message::{
    header_payload_size, DeserializeError, Header, Message, MessagePacket,
};

/// Basic serialization
#[test]
fn test_serialize() {
    let message = Message::Ping;

    // Ping's payload encoding: its discriminant as 4 little-endian bytes.
    let mut serialized_payload: Vec<u8> = vec![0, 0, 0, 0];
    let message = MessagePacket {
        header: Header {
            timestamp: 12345678,
            version: 1,
            payload_size: serialized_payload.len() as u16,
        },
        payload: message,
    };

    let mut correct_serialized: Vec<u8> = vec![
        78,
        97,
        188,
        0, // timestamp (12345678 in little-endian)
        1,
        0, // version (1 in little-endian)
        serialized_payload.len() as u8,
        0, // payload size
    ];
    correct_serialized.append(&mut serialized_payload); // payload

    // The expected serialized format includes the header and the payload.
    assert_eq!(message.serialize(), correct_serialized);
}

/// Message serialized and deserialized should be equal
#[test]
fn test_serialize_and_deserialize() {
    let message = MessagePacket {
        header: Header {
            timestamp: 12345678,
            version: 1,
            payload_size: 4,
        },
        payload: Message::Ping,
    };

    let serialized = message.serialize();
    let deserialized = MessagePacket::deserialize(&serialized).expect("Deserialization failed");

    assert_eq!(deserialized, message);
}

/// Invalid data length
#[test]
fn test_deserialize_invalid_length() {
    let data = vec![
        78, 97, 188, 0, // timestamp (12345678 in little-endian)
        1, 0, // version (1 in little-endian)
        4, 0, // payload size (4 in little-endian)
    ];
    let result = MessagePacket::deserialize(&data);
    assert!(result.is_err());
    assert!(matches!(
        result.unwrap_err(),
        DeserializeError::InvalidPayloadLength
    ));
}

/// Payload size says 4, but only 2 bytes provided
#[test]
fn test_deserialize_payload_size_mismatch() {
    let data = vec![
        78, 97, 188, 0, // timestamp (12345678 in little-endian)
        1, 0, // version (1 in little-endian)
        4, 0, // payload size (4 in little-endian)
        0, 1, // Incomplete payload (only 2 bytes instead of 4)
    ];
    let result = MessagePacket::deserialize(&data);
    assert!(result.is_err());
    assert!(matches!(
        result.unwrap_err(),
        DeserializeError::InvalidPayloadLength
    ));
}

/// Every variant round-trips through its own serialization.
#[test]
fn test_round_trip_all_variants() {
    for payload in [
        Message::Ping,
        Message::Data,
        Message::Disconnect,
        Message::Chat,
    ] {
        let packet = MessagePacket {
            header: Header {
                timestamp: 4294000000,
                version: 7,
                payload_size: 4,
            },
            payload,
        };
        let bytes = packet.serialize();
        assert_eq!(bytes.len(), 12);
        assert_eq!(MessagePacket::deserialize(&bytes), Ok(packet));
    }
}

/// A 2-byte buffer is shorter than any header.
#[test]
fn test_deserialize_too_short() {
    assert!(matches!(
        MessagePacket::deserialize(&[0, 4]),
        Err(DeserializeError::MessageTooShort)
    ));
    assert!(matches!(
        MessagePacket::deserialize(&[]),
        Err(DeserializeError::MessageTooShort)
    ));
    assert!(matches!(
        MessagePacket::deserialize(&[78, 97, 188, 0, 1, 0, 0]),
        Err(DeserializeError::MessageTooShort)
    ));
}

/// Discriminants outside the known set are rejected, whether they fit in a
/// byte or not.
#[test]
fn test_deserialize_unsupported_type() {
    let data = vec![78, 97, 188, 0, 1, 0, 4, 0, 7, 0, 0, 0];
    assert!(matches!(
        MessagePacket::deserialize(&data),
        Err(DeserializeError::UnsupportedMessageType)
    ));

    let data = vec![78, 97, 188, 0, 1, 0, 4, 0, 0, 1, 0, 0];
    assert!(matches!(
        MessagePacket::deserialize(&data),
        Err(DeserializeError::UnsupportedMessageType)
    ));
}

/// A payload whose size agrees with the buffer but is not one discriminant
/// wide is structurally malformed.
#[test]
fn test_deserialize_malformed_payload() {
    let data = vec![78, 97, 188, 0, 1, 0, 2, 0, 0, 0];
    assert!(matches!(
        MessagePacket::deserialize(&data),
        Err(DeserializeError::PayloadDecodeFailure)
    ));

    let data = vec![78, 97, 188, 0, 1, 0, 5, 0, 0, 0, 0, 0, 0];
    assert!(matches!(
        MessagePacket::deserialize(&data),
        Err(DeserializeError::PayloadDecodeFailure)
    ));
}

/// The wire discriminants are fixed: Ping=0, Data=1, Disconnect=2, Chat=3.
#[test]
fn test_message_discriminants() {
    let variants = [
        Message::Ping,
        Message::Data,
        Message::Disconnect,
        Message::Chat,
    ];
    for (i, m) in variants.iter().enumerate() {
        assert_eq!(m.to_u8(), i as u8);
        assert_eq!(Message::from_u8(i as u8), Ok(*m));
    }
    assert_eq!(
        Message::from_u8(4),
        Err(DeserializeError::UnsupportedMessageType)
    );
    assert_eq!(
        Message::from_u8(255),
        Err(DeserializeError::UnsupportedMessageType)
    );
}

/// A freshly built packet carries its message, the current wire version, and
/// a zero payload size that serialization replaces with the real one.
#[test]
fn test_new_packet_serializes() {
    let packet = MessagePacket::new(Message::Ping);
    assert_eq!(packet.payload, Message::Ping);
    assert_eq!(packet.header.version, 0);
    assert_eq!(packet.header.payload_size, 0);

    let bytes = packet.serialize();
    assert_eq!(bytes.len(), 12);
    assert_eq!(&bytes[8..], &[0, 0, 0, 0]);
    assert_eq!(&bytes[6..8], &[4, 0]);
}

/// A frame declares its own payload length in its header.
#[test]
fn test_header_payload_size() {
    let packet = MessagePacket {
        header: Header {
            timestamp: 1,
            version: 0,
            payload_size: 4,
        },
        payload: Message::Chat,
    };
    let bytes = packet.serialize();
    assert_eq!(header_payload_size(&bytes[..8]), 4);
    assert_eq!(header_payload_size(&[0, 0, 0, 0, 0, 0, 0xff, 0x01]), 511);
}
