use vstd::prelude::*;

use bytes::Bytes;

use crate::buf::bytes_seq;

verus! {

/// Packet type code of a Connect packet.
pub const CONNECT: u8 = 1;

/// Packet type code of a ConnectAck packet.
pub const CONNACK: u8 = 2;

/// Packet type code of a Publish packet.
pub const PUBLISH: u8 = 3;

/// Packet type code of a PublishAck packet.
pub const PUBACK: u8 = 4;

/// Packet type code of a PublishReceived packet.
pub const PUBREC: u8 = 5;

/// Packet type code of a PublishRelease packet.
pub const PUBREL: u8 = 6;

/// Packet type code of a PublishComplete packet.
pub const PUBCOMP: u8 = 7;

/// Packet type code of a Subscribe packet.
pub const SUBSCRIBE: u8 = 8;

/// Packet type code of a SubscribeAck packet.
pub const SUBACK: u8 = 9;

/// Packet type code of an Unsubscribe packet.
pub const UNSUBSCRIBE: u8 = 10;

/// Packet type code of an UnsubscribeAck packet.
pub const UNSUBACK: u8 = 11;

/// Packet type code of a PingRequest packet.
pub const PINGREQ: u8 = 12;

/// Packet type code of a PingResponse packet.
pub const PINGRESP: u8 = 13;

/// Packet type code of a Disconnect packet.
pub const DISCONNECT: u8 = 14;

/// The single protocol level this decoder accepts.
pub const DEFAULT_MQTT_LEVEL: u8 = 4;

/// Quality-of-service level of a message delivery.
#[derive(Clone, Copy, Debug, PartialEq, Eq, Structural)]
pub enum QoS {
    AtMostOnce,
    AtLeastOnce,
    ExactlyOnce,
}

/// The delivery level named by the low two bits of a byte.
///
/// The two-bit patterns 0, 1 and 2 name the three levels; the
/// protocol-invalid pattern 3 maps to ExactlyOnce where a field is read
/// permissively (will flags, subscription entries).  The Publish decoder
/// rejects the pattern 3 before this mapping is ever applied to its flags.
pub open spec fn spec_qos_of(b: u8) -> QoS {
    if b & 3 == 0 {
        QoS::AtMostOnce
    } else if b & 3 == 1 {
        QoS::AtLeastOnce
    } else {
        QoS::ExactlyOnce
    }
}

/// Reads the delivery level out of the low two bits of a byte.
pub fn qos_from_bits(b: u8) -> (q: QoS)
    ensures
        q == spec_qos_of(b),
{
    let low = b & 3;
    if low == 0 {
        QoS::AtMostOnce
    } else if low == 1 {
        QoS::AtLeastOnce
    } else {
        QoS::ExactlyOnce
    }
}

/// Protocol identifier and level carried by a Connect packet.
#[derive(Clone, Copy, Debug, PartialEq, Eq, Structural)]
pub enum Protocol {
    MQTT(u8),
}

/// Return code carried by a ConnectAck packet.
///
/// Codes above the six the protocol defines map to the reserved catch-all.
#[derive(Clone, Copy, Debug, PartialEq, Eq, Structural)]
pub enum ConnectCode {
    ConnectionAccepted,
    UnacceptableProtocolVersion,
    IdentifierRejected,
    ServiceUnavailable,
    BadUserNameOrPassword,
    NotAuthorized,
    Reserved,
}

/// The return code named by a ConnectAck return-code byte.
pub open spec fn spec_connect_code_of(b: u8) -> ConnectCode {
    if b == 0 {
        ConnectCode::ConnectionAccepted
    } else if b == 1 {
        ConnectCode::UnacceptableProtocolVersion
    } else if b == 2 {
        ConnectCode::IdentifierRejected
    } else if b == 3 {
        ConnectCode::ServiceUnavailable
    } else if b == 4 {
        ConnectCode::BadUserNameOrPassword
    } else if b == 5 {
        ConnectCode::NotAuthorized
    } else {
        ConnectCode::Reserved
    }
}

/// Reads the return code out of a ConnectAck return-code byte.
pub fn connect_code_from_byte(b: u8) -> (c: ConnectCode)
    ensures
        c == spec_connect_code_of(b),
{
    if b == 0 {
        ConnectCode::ConnectionAccepted
    } else if b == 1 {
        ConnectCode::UnacceptableProtocolVersion
    } else if b == 2 {
        ConnectCode::IdentifierRejected
    } else if b == 3 {
        ConnectCode::ServiceUnavailable
    } else if b == 4 {
        ConnectCode::BadUserNameOrPassword
    } else if b == 5 {
        ConnectCode::NotAuthorized
    } else {
        ConnectCode::Reserved
    }
}

/// One entry of a SubscribeAck status list.
#[derive(Clone, Copy, Debug, PartialEq, Eq, Structural)]
pub enum SubscribeReturnCode {
    Success(QoS),
    Failure,
}

/// Packet type, flag nibble and declared body length of one packet.
#[derive(Clone, Copy, Debug, PartialEq, Eq, Structural)]
pub struct FixedHeader {
    /// Four-bit packet type code from the high nibble of the first byte.
    pub packet_type: u8,
    /// Low four bits of the first byte; their legality depends on the type.
    pub packet_flags: u8,
    /// Count of body bytes that follow the fixed header.
    pub remaining_length: usize,
}

/// Message the server publishes if the client's connection dies.
#[derive(Debug, PartialEq)]
pub struct LastWill {
    pub qos: QoS,
    pub retain: bool,
    pub topic: String,
    pub message: Bytes,
}

/// Mathematical value of a LastWill.
#[verifier::ext_equal]
pub struct LastWillV {
    pub qos: QoS,
    pub retain: bool,
    pub topic: Seq<char>,
    pub message: Seq<u8>,
}

impl View for LastWill {
    type V = LastWillV;

    open spec fn view(&self) -> LastWillV {
        LastWillV {
            qos: self.qos,
            retain: self.retain,
            topic: self.topic@,
            message: bytes_seq(self.message),
        }
    }
}

/// Fields of a Connect packet.
#[derive(Debug, PartialEq)]
pub struct Connect {
    pub protocol: Protocol,
    pub clean_session: bool,
    pub keep_alive: u16,
    pub client_id: String,
    pub last_will: Option<LastWill>,
    pub username: Option<String>,
    pub password: Option<Bytes>,
}

/// Mathematical value of a Connect.
#[verifier::ext_equal]
pub struct ConnectV {
    pub protocol: Protocol,
    pub clean_session: bool,
    pub keep_alive: u16,
    pub client_id: Seq<char>,
    pub last_will: Option<LastWillV>,
    pub username: Option<Seq<char>>,
    pub password: Option<Seq<u8>>,
}

impl View for Connect {
    type V = ConnectV;

    open spec fn view(&self) -> ConnectV {
        ConnectV {
            protocol: self.protocol,
            clean_session: self.clean_session,
            keep_alive: self.keep_alive,
            client_id: self.client_id@,
            last_will: match self.last_will {
                Some(w) => Some(w@),
                None => None,
            },
            username: match self.username {
                Some(u) => Some(u@),
                None => None,
            },
            password: match self.password {
                Some(p) => Some(bytes_seq(p)),
                None => None,
            },
        }
    }
}

/// Fields of a Publish packet.
#[derive(Debug, PartialEq)]
pub struct Publish {
    pub dup: bool,
    pub qos: QoS,
    pub retain: bool,
    pub topic: String,
    /// Present exactly when the delivery level is not AtMostOnce.
    pub packet_id: Option<u16>,
    /// The rest of the packet body, shared with the receive buffer.
    pub payload: Bytes,
}

/// Mathematical value of a Publish.
#[verifier::ext_equal]
pub struct PublishV {
    pub dup: bool,
    pub qos: QoS,
    pub retain: bool,
    pub topic: Seq<char>,
    pub packet_id: Option<u16>,
    pub payload: Seq<u8>,
}

impl View for Publish {
    type V = PublishV;

    open spec fn view(&self) -> PublishV {
        PublishV {
            dup: self.dup,
            qos: self.qos,
            retain: self.retain,
            topic: self.topic@,
            packet_id: self.packet_id,
            payload: bytes_seq(self.payload),
        }
    }
}

/// Mathematical value of a Subscribe filter list.
pub open spec fn filters_view(s: Seq<(String, QoS)>) -> Seq<(Seq<char>, QoS)> {
    s.map_values(|p: (String, QoS)| (p.0@, p.1))
}

/// Mathematical value of an Unsubscribe filter list.
pub open spec fn topics_view(s: Seq<String>) -> Seq<Seq<char>> {
    s.map_values(|t: String| t@)
}

/// One decoded MQTT packet, a closed set of one variant per packet type.
#[derive(Debug, PartialEq)]
pub enum Packet {
    Connect(Connect),
    ConnectAck { session_present: bool, return_code: ConnectCode },
    Publish(Publish),
    PublishAck { packet_id: u16 },
    PublishReceived { packet_id: u16 },
    PublishRelease { packet_id: u16 },
    PublishComplete { packet_id: u16 },
    Subscribe { packet_id: u16, topic_filters: Vec<(String, QoS)> },
    SubscribeAck { packet_id: u16, status: Vec<SubscribeReturnCode> },
    Unsubscribe { packet_id: u16, topic_filters: Vec<String> },
    UnsubscribeAck { packet_id: u16 },
    PingRequest,
    PingResponse,
    Disconnect,
}

/// Mathematical value of a Packet.
#[verifier::ext_equal]
pub enum PacketV {
    Connect(ConnectV),
    ConnectAck { session_present: bool, return_code: ConnectCode },
    Publish(PublishV),
    PublishAck { packet_id: u16 },
    PublishReceived { packet_id: u16 },
    PublishRelease { packet_id: u16 },
    PublishComplete { packet_id: u16 },
    Subscribe { packet_id: u16, topic_filters: Seq<(Seq<char>, QoS)> },
    SubscribeAck { packet_id: u16, status: Seq<SubscribeReturnCode> },
    Unsubscribe { packet_id: u16, topic_filters: Seq<Seq<char>> },
    UnsubscribeAck { packet_id: u16 },
    PingRequest,
    PingResponse,
    Disconnect,
}

impl View for Packet {
    type V = PacketV;

    open spec fn view(&self) -> PacketV {
        match self {
            Packet::Connect(c) => PacketV::Connect(c@),
            Packet::ConnectAck { session_present, return_code } => (PacketV::ConnectAck {
                session_present: *session_present,
                return_code: *return_code,
            }),
            Packet::Publish(p) => PacketV::Publish(p@),
            Packet::PublishAck { packet_id } => (PacketV::PublishAck { packet_id: *packet_id }),
            Packet::PublishReceived { packet_id } => (PacketV::PublishReceived {
                packet_id: *packet_id,
            }),
            Packet::PublishRelease { packet_id } => (PacketV::PublishRelease {
                packet_id: *packet_id,
            }),
            Packet::PublishComplete { packet_id } => (PacketV::PublishComplete {
                packet_id: *packet_id,
            }),
            Packet::Subscribe { packet_id, topic_filters } => (PacketV::Subscribe {
                packet_id: *packet_id,
                topic_filters: filters_view(topic_filters@),
            }),
            Packet::SubscribeAck { packet_id, status } => (PacketV::SubscribeAck {
                packet_id: *packet_id,
                status: status@,
            }),
            Packet::Unsubscribe { packet_id, topic_filters } => (PacketV::Unsubscribe {
                packet_id: *packet_id,
                topic_filters: topics_view(topic_filters@),
            }),
            Packet::UnsubscribeAck { packet_id } => (PacketV::UnsubscribeAck {
                packet_id: *packet_id,
            }),
            Packet::PingRequest => PacketV::PingRequest,
            Packet::PingResponse => PacketV::PingResponse,
            Packet::Disconnect => PacketV::Disconnect,
        }
    }
}

} // verus!
