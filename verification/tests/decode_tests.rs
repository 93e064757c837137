use bytes::Bytes;

use mqtt_codec::decode_connect_ack_packet;
use mqtt_codec::decode_connect_packet;
use mqtt_codec::decode_packet;
use mqtt_codec::decode_publish_packet;
use mqtt_codec::decode_subscribe_ack_packet;
use mqtt_codec::decode_subscribe_packet;
use mqtt_codec::decode_unsubscribe_packet;
use mqtt_codec::decode_variable_length;
use mqtt_codec::Connect;
use mqtt_codec::ConnectCode;
use mqtt_codec::Cursor;
use mqtt_codec::FixedHeader;
use mqtt_codec::LastWill;
use mqtt_codec::Packet;
use mqtt_codec::ParseError;
use mqtt_codec::Protocol;
use mqtt_codec::Publish;
use mqtt_codec::QoS;
use mqtt_codec::SubscribeReturnCode;
use mqtt_codec::CONNACK;
use mqtt_codec::CONNECT;
use mqtt_codec::PUBLISH;
use mqtt_codec::SUBACK;
use mqtt_codec::SUBSCRIBE;
use mqtt_codec::UNSUBSCRIBE;

fn body_cursor(bytes: &[u8]) -> Cursor {
    Cursor::new(Bytes::copy_from_slice(bytes))
}

fn header(packet_type: u8, packet_flags: u8, remaining_length: usize) -> FixedHeader {
    FixedHeader { packet_type, packet_flags, remaining_length }
}

fn decode_connect(bytes: &[u8]) -> Result<Packet, ParseError> {
    let mut cursor = body_cursor(bytes);
    decode_connect_packet(&mut cursor, header(CONNECT, 0, bytes.len()))
}

fn decode_connect_ack(bytes: &[u8]) -> Result<Packet, ParseError> {
    let mut cursor = body_cursor(bytes);
    decode_connect_ack_packet(&mut cursor, header(CONNACK, 0, bytes.len()))
}

#[test]
fn test_decode_variable_length() {
    assert_eq!(decode_variable_length(b"\x7f\x7f"), Ok(Some((127, 1))));

    assert_eq!(decode_variable_length(b"\xff\xff\xff"), Ok(None));
    assert_eq!(
        decode_variable_length(b"\xff\xff\xff\xff\xff\xff"),
        Err(ParseError::InvalidLength)
    );

    assert_eq!(decode_variable_length(b"\x00"), Ok(Some((0, 1))));
    assert_eq!(decode_variable_length(b"\x7f"), Ok(Some((127, 1))));
    assert_eq!(decode_variable_length(b"\x80\x01"), Ok(Some((128, 2))));
    assert_eq!(decode_variable_length(b"\xff\x7f"), Ok(Some((16383, 2))));
    assert_eq!(decode_variable_length(b"\x80\x80\x01"), Ok(Some((16384, 3))));
    assert_eq!(decode_variable_length(b"\xff\xff\x7f"), Ok(Some((2097151, 3))));
    assert_eq!(decode_variable_length(b"\x80\x80\x80\x01"), Ok(Some((2097152, 4))));
    assert_eq!(decode_variable_length(b"\xff\xff\xff\x7f"), Ok(Some((268435455, 4))));
}

#[test]
fn test_decode_connect_packets() {
    assert_eq!(
        decode_connect(b"\x00\x04MQTT\x04\xC0\x00\x3C\x00\x0512345\x00\x04user\x00\x04pass"),
        Ok(Packet::Connect(Connect {
            protocol: Protocol::MQTT(4),
            clean_session: false,
            keep_alive: 60,
            client_id: "12345".to_string(),
            last_will: None,
            username: Some("user".to_string()),
            password: Some(Bytes::from_static(b"pass")),
        }))
    );

    assert_eq!(
        decode_connect(b"\x00\x04MQTT\x04\x14\x00\x3C\x00\x0512345\x00\x05topic\x00\x07message"),
        Ok(Packet::Connect(Connect {
            protocol: Protocol::MQTT(4),
            clean_session: false,
            keep_alive: 60,
            client_id: "12345".to_string(),
            last_will: Some(LastWill {
                qos: QoS::ExactlyOnce,
                retain: false,
                topic: "topic".to_string(),
                message: Bytes::from_static(b"message"),
            }),
            username: None,
            password: None,
        }))
    );

    assert_eq!(decode_connect(b"\x00\x02MQ"), Err(ParseError::InvalidProtocol));
    assert_eq!(decode_connect(b"\x00\x04MQAA"), Err(ParseError::InvalidProtocol));
    assert_eq!(
        decode_connect(b"\x00\x04MQTT\x03"),
        Err(ParseError::UnsupportedProtocolLevel)
    );
    assert_eq!(
        decode_connect(b"\x00\x04MQTT\x04\xff"),
        Err(ParseError::ConnectReservedFlagSet)
    );

    assert_eq!(
        decode_connect_ack(b"\x01\x04"),
        Ok(Packet::ConnectAck {
            session_present: true,
            return_code: ConnectCode::BadUserNameOrPassword,
        })
    );

    assert_eq!(
        decode_connect_ack(b"\x03\x04"),
        Err(ParseError::ConnAckReservedFlagSet)
    );

    assert_eq!(
        decode_packet(b"\x20\x02\x01\x04"),
        Ok(Some((
            Packet::ConnectAck {
                session_present: true,
                return_code: ConnectCode::BadUserNameOrPassword,
            },
            4
        )))
    );

    assert_eq!(decode_packet(b"\xe0\x00"), Ok(Some((Packet::Disconnect, 2))));
}

#[test]
fn test_decode_publish_packets() {
    let mut cursor = body_cursor(b"\x00\x05topic\x12\x34");
    assert_eq!(
        decode_publish_packet(&mut cursor, header(PUBLISH, 0b0010, 9)),
        Ok(Packet::Publish(Publish {
            dup: false,
            qos: QoS::AtLeastOnce,
            retain: false,
            topic: "topic".to_string(),
            packet_id: Some(0x1234),
            payload: Bytes::from_static(b""),
        }))
    );

    assert_eq!(
        decode_packet(b"\x3d\x0D\x00\x05topic\x43\x21data"),
        Ok(Some((
            Packet::Publish(Publish {
                dup: true,
                qos: QoS::ExactlyOnce,
                retain: true,
                topic: "topic".to_string(),
                packet_id: Some(0x4321),
                payload: Bytes::from_static(b"data"),
            }),
            15
        )))
    );
    assert_eq!(
        decode_packet(b"\x30\x0b\x00\x05topicdata"),
        Ok(Some((
            Packet::Publish(Publish {
                dup: false,
                qos: QoS::AtMostOnce,
                retain: false,
                topic: "topic".to_string(),
                packet_id: None,
                payload: Bytes::from_static(b"data"),
            }),
            13
        )))
    );

    assert_eq!(
        decode_packet(b"\x40\x02\x43\x21"),
        Ok(Some((Packet::PublishAck { packet_id: 0x4321 }, 4)))
    );
    assert_eq!(
        decode_packet(b"\x50\x02\x43\x21"),
        Ok(Some((Packet::PublishReceived { packet_id: 0x4321 }, 4)))
    );
    // The fixed reserved pattern 0b0010 is mandatory for PublishRelease, so
    // the flag nibble 0 is rejected and only the 0b0010 frame decodes.
    assert_eq!(
        decode_packet(b"\x60\x02\x43\x21"),
        Err(ParseError::FixedHeaderReservedFlagsMismatch)
    );
    assert_eq!(
        decode_packet(b"\x62\x02\x43\x21"),
        Ok(Some((Packet::PublishRelease { packet_id: 0x4321 }, 4)))
    );
    assert_eq!(
        decode_packet(b"\x70\x02\x43\x21"),
        Ok(Some((Packet::PublishComplete { packet_id: 0x4321 }, 4)))
    );
}

#[test]
fn test_decode_subscribe_packets() {
    let filters = vec![
        ("test".to_string(), QoS::AtLeastOnce),
        ("filter".to_string(), QoS::ExactlyOnce),
    ];
    let mut cursor = body_cursor(b"\x12\x34\x00\x04test\x01\x00\x06filter\x02");
    assert_eq!(
        decode_subscribe_packet(&mut cursor, header(SUBSCRIBE, 0b0010, 18)),
        Ok(Packet::Subscribe { packet_id: 0x1234, topic_filters: filters.clone() })
    );
    assert_eq!(
        decode_packet(b"\x82\x12\x12\x34\x00\x04test\x01\x00\x06filter\x02"),
        Ok(Some((
            Packet::Subscribe { packet_id: 0x1234, topic_filters: filters },
            20
        )))
    );

    let status = vec![
        SubscribeReturnCode::Success(QoS::AtLeastOnce),
        SubscribeReturnCode::Failure,
        SubscribeReturnCode::Success(QoS::ExactlyOnce),
    ];
    let mut cursor = body_cursor(b"\x12\x34\x01\x80\x02");
    assert_eq!(
        decode_subscribe_ack_packet(&mut cursor, header(SUBACK, 0, 5)),
        Ok(Packet::SubscribeAck { packet_id: 0x1234, status: status.clone() })
    );
    assert_eq!(
        decode_packet(b"\x90\x05\x12\x34\x01\x80\x02"),
        Ok(Some((Packet::SubscribeAck { packet_id: 0x1234, status }, 7)))
    );

    let topics = vec!["test".to_string(), "filter".to_string()];
    let mut cursor = body_cursor(b"\x12\x34\x00\x04test\x00\x06filter");
    assert_eq!(
        decode_unsubscribe_packet(&mut cursor, header(UNSUBSCRIBE, 0b0010, 16)),
        Ok(Packet::Unsubscribe { packet_id: 0x1234, topic_filters: topics.clone() })
    );
    assert_eq!(
        decode_packet(b"\xa2\x10\x12\x34\x00\x04test\x00\x06filter"),
        Ok(Some((
            Packet::Unsubscribe { packet_id: 0x1234, topic_filters: topics },
            18
        )))
    );

    assert_eq!(
        decode_packet(b"\xb0\x02\x43\x21"),
        Ok(Some((Packet::UnsubscribeAck { packet_id: 0x4321 }, 4)))
    );
}

#[test]
fn test_decode_ping_packets() {
    assert_eq!(decode_packet(b"\xc0\x00"), Ok(Some((Packet::PingRequest, 2))));
    assert_eq!(decode_packet(b"\xd0\x00"), Ok(Some((Packet::PingResponse, 2))));
}
