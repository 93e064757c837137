use bytes::Bytes;

use mqtt_codec::decode_connect_ack_packet;
use mqtt_codec::decode_connect_packet;
use mqtt_codec::decode_fixed_header;
use mqtt_codec::decode_packet;
use mqtt_codec::decode_variable_length;
use mqtt_codec::Connect;
use mqtt_codec::ConnectCode;
use mqtt_codec::Cursor;
use mqtt_codec::FixedHeader;
use mqtt_codec::LastWill;
use mqtt_codec::Packet;
use mqtt_codec::ParseError;
use mqtt_codec::Protocol;
use mqtt_codec::QoS;
use mqtt_codec::SubscribeReturnCode;
use mqtt_codec::CONNACK;
use mqtt_codec::CONNECT;

fn decode_connect(bytes: &[u8]) -> Result<Packet, ParseError> {
    let mut cursor = Cursor::new(Bytes::copy_from_slice(bytes));
    let header = FixedHeader {
        packet_type: CONNECT,
        packet_flags: 0,
        remaining_length: bytes.len(),
    };
    decode_connect_packet(&mut cursor, header)
}

fn decode_connect_ack(bytes: &[u8]) -> Result<Packet, ParseError> {
    let mut cursor = Cursor::new(Bytes::copy_from_slice(bytes));
    let header = FixedHeader {
        packet_type: CONNACK,
        packet_flags: 0,
        remaining_length: bytes.len(),
    };
    decode_connect_ack_packet(&mut cursor, header)
}

#[test]
fn test_decode_fixed_header() {
    assert_eq!(
        decode_fixed_header(b"\x20\x7f"),
        Ok(Some((
            FixedHeader { packet_type: 2, packet_flags: 0, remaining_length: 127 },
            2
        )))
    );
    assert_eq!(
        decode_fixed_header(b"\x3C\x82\x7f"),
        Ok(Some((
            FixedHeader { packet_type: 3, packet_flags: 0x0C, remaining_length: 16258 },
            3
        )))
    );
    assert_eq!(decode_fixed_header(b""), Ok(None));
    assert_eq!(decode_fixed_header(b"\x20"), Ok(None));
    assert_eq!(decode_fixed_header(b"\x20\x80\x80"), Ok(None));
    assert_eq!(
        decode_fixed_header(b"\x10\xff\xff\xff\xff"),
        Err(ParseError::InvalidLength)
    );
}

#[test]
fn test_overlong_variable_length_accepted() {
    assert_eq!(decode_variable_length(b"\x80\x00"), Ok(Some((0, 2))));
    assert_eq!(decode_variable_length(b"\xff\x00"), Ok(Some((127, 2))));
}

#[test]
fn test_incomplete_frames() {
    assert_eq!(decode_packet(b""), Ok(None));
    assert_eq!(decode_packet(b"\x30"), Ok(None));
    assert_eq!(decode_packet(b"\x30\x0b\x00\x05top"), Ok(None));
}

#[test]
fn test_unsupported_packet_type() {
    assert_eq!(decode_packet(b"\x00\x00"), Err(ParseError::UnsupportedPacketType));
    assert_eq!(decode_packet(b"\xf0\x00"), Err(ParseError::UnsupportedPacketType));
}

#[test]
fn test_invalid_utf8_topic() {
    assert_eq!(
        decode_packet(b"\x30\x04\x00\x02\xff\xfe"),
        Err(ParseError::InvalidUtf8)
    );
}

#[test]
fn test_publish_missing_packet_id() {
    assert_eq!(
        decode_packet(b"\x32\x07\x00\x05topic"),
        Err(ParseError::InvalidLength)
    );
    assert_eq!(
        decode_packet(b"\x34\x07\x00\x05topic"),
        Err(ParseError::InvalidLength)
    );
}

#[test]
fn test_publish_invalid_qos_bits() {
    assert_eq!(
        decode_packet(b"\x36\x04\x00\x02ab"),
        Err(ParseError::FixedHeaderReservedFlagsMismatch)
    );
}

#[test]
fn test_length_prefix_overrun() {
    assert_eq!(decode_packet(b"\x30\x03\x00\x05t"), Err(ParseError::InvalidLength));
}

#[test]
fn test_invalid_client_id() {
    assert_eq!(
        decode_connect(b"\x00\x04MQTT\x04\x00\x00\x3C\x00\x00"),
        Err(ParseError::InvalidClientId)
    );
    assert_eq!(
        decode_connect(b"\x00\x04MQTT\x04\x02\x00\x3C\x00\x00"),
        Ok(Packet::Connect(Connect {
            protocol: Protocol::MQTT(4),
            clean_session: true,
            keep_alive: 60,
            client_id: "".to_string(),
            last_will: None,
            username: None,
            password: None,
        }))
    );
}

#[test]
fn test_will_flags_extracted() {
    assert_eq!(
        decode_connect(b"\x00\x04MQTT\x04\x2C\x00\x3C\x00\x0512345\x00\x05topic\x00\x03msg"),
        Ok(Packet::Connect(Connect {
            protocol: Protocol::MQTT(4),
            clean_session: false,
            keep_alive: 60,
            client_id: "12345".to_string(),
            last_will: Some(LastWill {
                qos: QoS::AtLeastOnce,
                retain: true,
                topic: "topic".to_string(),
                message: Bytes::from_static(b"msg"),
            }),
            username: None,
            password: None,
        }))
    );
}

#[test]
fn test_reserved_flag_nibbles_rejected() {
    assert_eq!(
        decode_packet(b"\x21\x02\x01\x04"),
        Err(ParseError::FixedHeaderReservedFlagsMismatch)
    );
    assert_eq!(
        decode_packet(b"\x80\x02\x12\x34"),
        Err(ParseError::FixedHeaderReservedFlagsMismatch)
    );
    assert_eq!(
        decode_packet(b"\xc1\x00"),
        Err(ParseError::FixedHeaderReservedFlagsMismatch)
    );
}

#[test]
fn test_subscribe_qos_low_bits_clamped() {
    assert_eq!(
        decode_packet(b"\x82\x06\x12\x34\x00\x01a\x03"),
        Ok(Some((
            Packet::Subscribe {
                packet_id: 0x1234,
                topic_filters: vec![("a".to_string(), QoS::ExactlyOnce)],
            },
            8
        )))
    );
    assert_eq!(
        decode_packet(b"\x90\x03\x12\x34\x03"),
        Ok(Some((
            Packet::SubscribeAck {
                packet_id: 0x1234,
                status: vec![SubscribeReturnCode::Success(QoS::ExactlyOnce)],
            },
            5
        )))
    );
}

#[test]
fn test_empty_filter_lists() {
    assert_eq!(
        decode_packet(b"\x82\x02\x12\x34"),
        Ok(Some((
            Packet::Subscribe { packet_id: 0x1234, topic_filters: vec![] },
            4
        )))
    );
    assert_eq!(
        decode_packet(b"\xa2\x02\x12\x34"),
        Ok(Some((
            Packet::Unsubscribe { packet_id: 0x1234, topic_filters: vec![] },
            4
        )))
    );
}

#[test]
fn test_connect_ack_codes() {
    assert_eq!(
        decode_connect_ack(b"\x00\x00"),
        Ok(Packet::ConnectAck {
            session_present: false,
            return_code: ConnectCode::ConnectionAccepted,
        })
    );
    assert_eq!(
        decode_connect_ack(b"\x00\x05"),
        Ok(Packet::ConnectAck {
            session_present: false,
            return_code: ConnectCode::NotAuthorized,
        })
    );
    assert_eq!(
        decode_connect_ack(b"\x00\x06"),
        Ok(Packet::ConnectAck {
            session_present: false,
            return_code: ConnectCode::Reserved,
        })
    );
    assert_eq!(decode_connect_ack(b"\x00"), Err(ParseError::InvalidLength));
}
