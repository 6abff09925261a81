//! The wire format: a `MessagePacket` is an 8-byte header (timestamp,
//! version, payload size, all little-endian) followed by a payload that
//! encodes one `Message` variant as a 4-byte little-endian discriminant.

use vstd::bytes::*;
use vstd::prelude::*;

verus! {

/// Byte length of the fixed packet header.
pub const HEADER_SIZE: usize = 8;

/// Wire-format revision written into outgoing headers.
pub const CURRENT_VERSION: u16 = 0;

/// The closed set of logical messages exchanged over the wire.
#[derive(Debug, Clone, Copy, PartialEq, Eq, Structural)]
pub enum Message {
    Ping,
    Data,
    Disconnect,
    Chat,
}

/// Why a byte buffer failed to decode into a `MessagePacket`.
#[derive(Debug, Clone, Copy, PartialEq, Eq, Structural)]
pub enum DeserializeError {
    /// The payload's discriminant is not one of the known variants.
    UnsupportedMessageType,
    /// The buffer is shorter than the fixed header.
    MessageTooShort,
    /// The buffer's length disagrees with the declared payload size.
    InvalidPayloadLength,
    /// The payload bytes are structurally malformed.
    PayloadDecodeFailure,
}

impl Message {
    /// The wire discriminant of this variant.
    pub open spec fn disc_spec(self) -> u8 {
        match self {
            Message::Ping => 0,
            Message::Data => 1,
            Message::Disconnect => 2,
            Message::Chat => 3,
        }
    }

    /// Which variant a wire discriminant denotes, if any.
    pub open spec fn from_u8_spec(val: u8) -> Result<Message, DeserializeError> {
        if val == 0 {
            Ok(Message::Ping)
        } else if val == 1 {
            Ok(Message::Data)
        } else if val == 2 {
            Ok(Message::Disconnect)
        } else if val == 3 {
            Ok(Message::Chat)
        } else {
            Err(DeserializeError::UnsupportedMessageType)
        }
    }

    /// Encode this variant as its wire discriminant.
    pub fn to_u8(self) -> (r: u8)
        ensures
            r == self.disc_spec(),
    {
        match self {
            Message::Ping => 0,
            Message::Data => 1,
            Message::Disconnect => 2,
            Message::Chat => 3,
        }
    }

    /// Decode a wire discriminant, rejecting unknown values.
    pub fn from_u8(val: u8) -> (r: Result<Message, DeserializeError>)
        ensures
            r == Message::from_u8_spec(val),
    {
        match val {
            0 => Ok(Message::Ping),
            1 => Ok(Message::Data),
            2 => Ok(Message::Disconnect),
            3 => Ok(Message::Chat),
            _ => Err(DeserializeError::UnsupportedMessageType),
        }
    }
}

/// The fixed packet header. `timestamp` is advisory (milliseconds since the
/// epoch, wrapping silently in 32 bits); `version` is read but not validated;
/// `payload_size` must equal the byte length of the payload that follows.
#[derive(Debug, Clone, Copy, PartialEq, Eq, Structural)]
pub struct Header {
    pub timestamp: u32,
    pub version: u16,
    pub payload_size: u16,
}

/// One header plus one payload: the unit exchanged over the wire.
#[derive(Debug, Clone, Copy, PartialEq, Eq, Structural)]
pub struct MessagePacket {
    pub header: Header,
    pub payload: Message,
}

/// The payload encoding of a message: its discriminant as 4 little-endian bytes.
pub open spec fn payload_enc(m: Message) -> Seq<u8> {
    spec_u32_to_le_bytes(m.disc_spec() as u32)
}

/// The payload decoding: exactly 4 bytes whose little-endian value names a
/// known variant; anything else is an error.
pub open spec fn decode_payload(p: Seq<u8>) -> Result<Message, DeserializeError> {
    if p.len() != 4 {
        Err(DeserializeError::PayloadDecodeFailure)
    } else {
        let v = spec_u32_from_le_bytes(p);
        if v > 255 {
            Err(DeserializeError::UnsupportedMessageType)
        } else {
            Message::from_u8_spec(v as u8)
        }
    }
}

/// The bytes a packet serializes to: 4-byte timestamp, 2-byte version, 2-byte
/// payload size (always computed from the payload, never copied from the
/// header), then the payload.
pub open spec fn encode(p: MessagePacket) -> Seq<u8> {
    spec_u32_to_le_bytes(p.header.timestamp) + spec_u16_to_le_bytes(p.header.version)
        + spec_u16_to_le_bytes(payload_enc(p.payload).len() as u16) + payload_enc(p.payload)
}

/// The packet a byte sequence decodes to, or the error classifying why it
/// cannot: too short for a header, a payload size that disagrees with the
/// buffer length, or a malformed payload.
pub open spec fn decode(s: Seq<u8>) -> Result<MessagePacket, DeserializeError> {
    if s.len() < HEADER_SIZE {
        Err(DeserializeError::MessageTooShort)
    } else {
        let timestamp = spec_u32_from_le_bytes(s.subrange(0, 4));
        let version = spec_u16_from_le_bytes(s.subrange(4, 6));
        let payload_size = spec_u16_from_le_bytes(s.subrange(6, 8));
        if s.len() != payload_size + HEADER_SIZE {
            Err(DeserializeError::InvalidPayloadLength)
        } else {
            match decode_payload(s.subrange(HEADER_SIZE as int, s.len() as int)) {
                Ok(m) => Ok(
                    MessagePacket {
                        header: Header { timestamp, version, payload_size },
                        payload: m,
                    },
                ),
                Err(e) => Err(e),
            }
        }
    }
}

impl MessagePacket {
    /// A packet is well formed when its header's payload size matches the
    /// byte length of its payload's encoding.
    pub open spec fn wf(self) -> bool {
        self.header.payload_size == payload_enc(self.payload).len()
    }

    /// Build a packet around a message, stamped with the current time. The
    /// payload size is left at zero; serialization computes the real one.
    pub fn new(message: Message) -> (r: MessagePacket)
        ensures
            r.payload == message,
            r.header.version == CURRENT_VERSION,
            r.header.payload_size == 0,
    {
        MessagePacket {
            header: Header {
                timestamp: crate::time::get_time(),
                version: CURRENT_VERSION,
                payload_size: 0,
            },
            payload: message,
        }
    }

    /// Serialize this packet into its wire bytes.
    pub fn serialize(&self) -> (r: Vec<u8>)
        ensures
            r@ == encode(*self),
    {
        proof {
            lemma_auto_spec_u32_to_from_le_bytes();
            lemma_auto_spec_u16_to_from_le_bytes();
        }
        let disc: u8 = self.payload.to_u8();
        let mut payload: Vec<u8> = u32_to_le_bytes(disc as u32);
        let payload_size: u16 = payload.len() as u16;

        let mut res: Vec<u8> = u32_to_le_bytes(self.header.timestamp);
        let mut version_bytes: Vec<u8> = u16_to_le_bytes(self.header.version);
        let mut size_bytes: Vec<u8> = u16_to_le_bytes(payload_size);
        res.append(&mut version_bytes);
        res.append(&mut size_bytes);
        res.append(&mut payload);
        res
    }

    /// Deserialize wire bytes into a packet, classifying malformed input.
    pub fn deserialize(data: &[u8]) -> (r: Result<MessagePacket, DeserializeError>)
        ensures
            r == decode(data@),
    {
        if data.len() < HEADER_SIZE {
            return Err(DeserializeError::MessageTooShort);
        }

        let timestamp = u32_from_le_bytes(&data[0..4]);
        let version = u16_from_le_bytes(&data[4..6]);
        let payload_size = u16_from_le_bytes(&data[6..8]);

        if data.len() != payload_size as usize + HEADER_SIZE {
            return Err(DeserializeError::InvalidPayloadLength);
        }
        let payload_bytes = &data[HEADER_SIZE..data.len()];
        assert(payload_bytes@ == data@.subrange(HEADER_SIZE as int, data@.len() as int));
        if payload_bytes.len() != 4 {
            return Err(DeserializeError::PayloadDecodeFailure);
        }
        let v = u32_from_le_bytes(payload_bytes);
        if v > 255 {
            return Err(DeserializeError::UnsupportedMessageType);
        }
        let payload = match Message::from_u8(v as u8) {
            Ok(m) => m,
            Err(e) => {
                return Err(e);
            },
        };

        Ok(MessagePacket { header: Header { timestamp, version, payload_size }, payload })
    }
}

/// Read the declared payload size out of a complete header: how many payload
/// bytes follow the header on the wire. A frame describes its own length.
pub fn header_payload_size(header: &[u8]) -> (r: u16)
    requires
        header@.len() >= HEADER_SIZE,
    ensures
        r == spec_u16_from_le_bytes(header@.subrange(6, 8)),
{
    u16_from_le_bytes(&header[6..8])
}

/// Round trip: a well-formed packet decodes back from its own encoding.
pub proof fn lemma_round_trip(p: MessagePacket)
    requires
        p.wf(),
    ensures
        decode(encode(p)) == Ok::<MessagePacket, DeserializeError>(p),
{
    lemma_auto_spec_u32_to_from_le_bytes();
    lemma_auto_spec_u16_to_from_le_bytes();
    let s = encode(p);
    assert(payload_enc(p.payload).len() == 4);
    assert(s.len() == 12);
    assert(s.subrange(0, 4) =~= spec_u32_to_le_bytes(p.header.timestamp));
    assert(s.subrange(4, 6) =~= spec_u16_to_le_bytes(p.header.version));
    assert(s.subrange(6, 8) =~= spec_u16_to_le_bytes(4u16));
    assert(s.subrange(8, 12) =~= spec_u32_to_le_bytes(p.payload.disc_spec() as u32));
    assert(spec_u32_from_le_bytes(s.subrange(8, 12)) == p.payload.disc_spec());
}

/// Length guard: any buffer shorter than a header fails with `MessageTooShort`.
pub proof fn lemma_short_input(s: Seq<u8>)
    requires
        s.len() < HEADER_SIZE,
    ensures
        decode(s) == Err::<MessagePacket, DeserializeError>(DeserializeError::MessageTooShort),
{
}

/// Payload mismatch guard: a declared payload size that disagrees with the
/// buffer's length always fails with `InvalidPayloadLength`.
pub proof fn lemma_payload_mismatch(s: Seq<u8>)
    requires
        s.len() >= HEADER_SIZE,
        spec_u16_from_le_bytes(s.subrange(6, 8)) != s.len() - HEADER_SIZE,
    ensures
        decode(s) == Err::<MessagePacket, DeserializeError>(
            DeserializeError::InvalidPayloadLength,
        ),
{
}

} // verus!
