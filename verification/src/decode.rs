use vstd::prelude::*;

use bytes::Bytes;

use crate::buf::bytes_from_slice;
use crate::buf::bytes_seq;
use crate::buf::bytes_to_utf8;
use crate::buf::utf8_chars;
use crate::buf::Cursor;
use crate::error::ParseError;
use crate::packet::spec_connect_code_of;
use crate::packet::spec_qos_of;
use crate::packet::connect_code_from_byte;
use crate::packet::filters_view;
use crate::packet::qos_from_bits;
use crate::packet::topics_view;
use crate::packet::Connect;
use crate::packet::ConnectV;
use crate::packet::FixedHeader;
use crate::packet::LastWill;
use crate::packet::LastWillV;
use crate::packet::Packet;
use crate::packet::PacketV;
use crate::packet::Protocol;
use crate::packet::Publish;
use crate::packet::PublishV;
use crate::packet::QoS;
use crate::packet::SubscribeReturnCode;
use crate::packet::CONNACK;
use crate::packet::CONNECT;
use crate::packet::DEFAULT_MQTT_LEVEL;
use crate::packet::DISCONNECT;
use crate::packet::PINGREQ;
use crate::packet::PINGRESP;
use crate::packet::PUBACK;
use crate::packet::PUBCOMP;
use crate::packet::PUBLISH;
use crate::packet::PUBREC;
use crate::packet::PUBREL;
use crate::packet::SUBACK;
use crate::packet::SUBSCRIBE;
use crate::packet::UNSUBACK;
use crate::packet::UNSUBSCRIBE;
use crate::varint::decode_variable_length;
use crate::varint::sp_varint;

verus! {

/// Connect-flags bit naming the clean-session request.
pub const CLEAN_SESSION_FLAG: u8 = 0x02;

/// Connect-flags bit announcing a last-will entry.
pub const WILL_FLAG: u8 = 0x04;

/// Connect-flags bit asking for a retained last will.
pub const WILL_RETAIN_FLAG: u8 = 0x20;

/// Connect-flags bit announcing a password field.
pub const PASSWORD_FLAG: u8 = 0x40;

/// Connect-flags bit announcing a username field.
pub const USERNAME_FLAG: u8 = 0x80;

/// The packet a decode outcome carries, by value.
pub open spec fn view_result(r: Result<Packet, ParseError>) -> Result<PacketV, ParseError> {
    match r {
        Ok(p) => Ok(p@),
        Err(e) => Err(e),
    }
}

/// A big-endian u16 read off the front of `s`, with what follows it.
pub open spec fn sp_u16(s: Seq<u8>) -> Result<(u16, Seq<u8>), ParseError> {
    if s.len() >= 2 {
        Ok((((s[0] as int) * 256 + (s[1] as int)) as u16, s.skip(2)))
    } else {
        Err(ParseError::InvalidLength)
    }
}

/// A length-prefixed byte string read off the front of `s`, with what
/// follows it.
pub open spec fn sp_bytes(s: Seq<u8>) -> Result<(Seq<u8>, Seq<u8>), ParseError> {
    match sp_u16(s) {
        Ok((n, r)) => {
            if r.len() >= n as int {
                Ok((r.take(n as int), r.skip(n as int)))
            } else {
                Err(ParseError::InvalidLength)
            }
        },
        Err(e) => Err(e),
    }
}

/// A length-prefixed UTF-8 string read off the front of `s`, with what
/// follows it; malformed bytes are rejected, not replaced.
pub open spec fn sp_str(s: Seq<u8>) -> Result<(Seq<char>, Seq<u8>), ParseError> {
    match sp_bytes(s) {
        Ok((bs, r)) => match utf8_chars(bs) {
            Some(cs) => Ok((cs, r)),
            None => Err(ParseError::InvalidUtf8),
        },
        Err(e) => Err(e),
    }
}

/// A length-prefixed field leaves at least two fewer bytes than it found.
pub proof fn lemma_sp_str_shrinks(s: Seq<u8>)
    ensures
        sp_str(s) matches Ok((t, r)) ==> r.len() <= s.len() - 2,
{
}

/// Reads a big-endian u16 field; fails with `InvalidLength` when fewer than
/// two bytes remain, consuming nothing in that case.
pub fn read_u16(src: &mut Cursor) -> (r: Result<u16, ParseError>)
    requires
        old(src).wf(),
    ensures
        final(src).wf(),
        match sp_u16(old(src).remaining_seq()) {
            Ok(p) => r == Ok::<u16, ParseError>(p.0) && final(src).remaining_seq() == p.1,
            Err(e) => r == Err::<u16, ParseError>(e) && *final(src) == *old(src),
        },
{
    if src.remaining() < 2 {
        return Err(ParseError::InvalidLength);
    }
    let hi = src.get_u8();
    let lo = src.get_u8();
    proof {
        assert(final(src).remaining_seq() =~= old(src).remaining_seq().skip(2));
    }
    Ok((hi as u16) * 256 + (lo as u16))
}

/// Reads a u16 length prefix and takes that many bytes out as a shared
/// slice; fails with `InvalidLength` when fewer bytes remain.
pub fn decode_length_bytes(src: &mut Cursor) -> (r: Result<Bytes, ParseError>)
    requires
        old(src).wf(),
    ensures
        final(src).wf(),
        match sp_bytes(old(src).remaining_seq()) {
            Ok((bs, rest)) => r matches Ok(b) && bytes_seq(b) == bs && final(src).remaining_seq()
                == rest,
            Err(e) => r == Err::<Bytes, ParseError>(e),
        },
{
    let n16 = match read_u16(src) {
        Ok(v) => v,
        Err(e) => return Err(e),
    };
    let n = n16 as usize;
    if src.remaining() < n {
        return Err(ParseError::InvalidLength);
    }
    Ok(src.take_bytes(n))
}

/// Reads a length-prefixed field and validates it as UTF-8; malformed bytes
/// fail with `InvalidUtf8`.
pub fn decode_utf8_str(src: &mut Cursor) -> (r: Result<String, ParseError>)
    requires
        old(src).wf(),
    ensures
        final(src).wf(),
        match sp_str(old(src).remaining_seq()) {
            Ok((cs, rest)) => r matches Ok(x) && x@ == cs && final(src).remaining_seq() == rest,
            Err(e) => r == Err::<String, ParseError>(e),
        },
{
    let b = match decode_length_bytes(src) {
        Ok(b) => b,
        Err(e) => return Err(e),
    };
    match bytes_to_utf8(&b) {
        Some(s) => Ok(s),
        None => Err(ParseError::InvalidUtf8),
    }
}

/// What decoding a Connect body under fixed-header flags `hflags` yields.
pub open spec fn sp_connect(hflags: u8, s: Seq<u8>) -> Result<PacketV, ParseError> {
    if hflags != 0 {
        Err(ParseError::FixedHeaderReservedFlagsMismatch)
    } else {
        match sp_u16(s) {
            Err(e) => Err(e),
            Ok((plen, r0)) => {
                if plen != 4 {
                    Err(ParseError::InvalidProtocol)
                } else if r0.len() < 4 {
                    Err(ParseError::InvalidLength)
                } else if !(r0[0] == 0x4d && r0[1] == 0x51 && r0[2] == 0x54 && r0[3] == 0x54) {
                    Err(ParseError::InvalidProtocol)
                } else {
                    sp_connect_level(r0.skip(4))
                }
            },
        }
    }
}

/// Connect decoding after the protocol name: level, flags and keep-alive.
pub open spec fn sp_connect_level(s: Seq<u8>) -> Result<PacketV, ParseError> {
    if s.len() < 1 {
        Err(ParseError::InvalidLength)
    } else if s[0] != DEFAULT_MQTT_LEVEL {
        Err(ParseError::UnsupportedProtocolLevel)
    } else if s.len() < 2 {
        Err(ParseError::InvalidLength)
    } else if s[1] & 0x01 != 0 {
        Err(ParseError::ConnectReservedFlagSet)
    } else {
        match sp_u16(s.skip(2)) {
            Err(e) => Err(e),
            Ok((keep_alive, r)) => sp_connect_fields(s[1], keep_alive, r),
        }
    }
}

/// Connect decoding after keep-alive: client id and the last will.
pub open spec fn sp_connect_fields(cflags: u8, keep_alive: u16, s: Seq<u8>) -> Result<
    PacketV,
    ParseError,
> {
    match sp_str(s) {
        Err(e) => Err(e),
        Ok((client_id, r0)) => {
            if client_id.len() == 0 && cflags & CLEAN_SESSION_FLAG == 0 {
                Err(ParseError::InvalidClientId)
            } else if cflags & WILL_FLAG != 0 {
                match sp_str(r0) {
                    Err(e) => Err(e),
                    Ok((wtopic, r1)) => match sp_bytes(r1) {
                        Err(e) => Err(e),
                        Ok((wmsg, r2)) => sp_connect_user(
                            cflags,
                            keep_alive,
                            client_id,
                            Some(
                                LastWillV {
                                    qos: spec_qos_of(cflags >> 3),
                                    retain: cflags & WILL_RETAIN_FLAG != 0,
                                    topic: wtopic,
                                    message: wmsg,
                                },
                            ),
                            r2,
                        ),
                    },
                }
            } else {
                sp_connect_user(cflags, keep_alive, client_id, None, r0)
            }
        },
    }
}

/// Connect decoding after the will: the optional username.
pub open spec fn sp_connect_user(
    cflags: u8,
    keep_alive: u16,
    client_id: Seq<char>,
    will: Option<LastWillV>,
    s: Seq<u8>,
) -> Result<PacketV, ParseError> {
    if cflags & USERNAME_FLAG != 0 {
        match sp_str(s) {
            Err(e) => Err(e),
            Ok((user, r)) => sp_connect_pass(cflags, keep_alive, client_id, will, Some(user), r),
        }
    } else {
        sp_connect_pass(cflags, keep_alive, client_id, will, None, s)
    }
}

/// Connect decoding after the username: the optional password; bytes past
/// the last announced field are ignored.
pub open spec fn sp_connect_pass(
    cflags: u8,
    keep_alive: u16,
    client_id: Seq<char>,
    will: Option<LastWillV>,
    username: Option<Seq<char>>,
    s: Seq<u8>,
) -> Result<PacketV, ParseError> {
    if cflags & PASSWORD_FLAG != 0 {
        match sp_bytes(s) {
            Err(e) => Err(e),
            Ok((pass, _r)) => Ok(
                sp_connect_packet(cflags, keep_alive, client_id, will, username, Some(pass)),
            ),
        }
    } else {
        Ok(sp_connect_packet(cflags, keep_alive, client_id, will, username, None))
    }
}

/// The Connect packet value assembled from its decoded fields.
pub open spec fn sp_connect_packet(
    cflags: u8,
    keep_alive: u16,
    client_id: Seq<char>,
    will: Option<LastWillV>,
    username: Option<Seq<char>>,
    password: Option<Seq<u8>>,
) -> PacketV {
    PacketV::Connect(
        ConnectV {
            protocol: Protocol::MQTT(DEFAULT_MQTT_LEVEL),
            clean_session: cflags & CLEAN_SESSION_FLAG != 0,
            keep_alive: keep_alive,
            client_id: client_id,
            last_will: will,
            username: username,
            password: password,
        },
    )
}

/// Decodes a Connect body: protocol name and level, connect flags,
/// keep-alive, client id, then the fields the flags announce, each checked
/// in wire order with the first violated invariant reported.
pub fn decode_connect_packet(src: &mut Cursor, header: FixedHeader) -> (r: Result<
    Packet,
    ParseError,
>)
    requires
        old(src).wf(),
    ensures
        final(src).wf(),
        view_result(r) == sp_connect(header.packet_flags, old(src).remaining_seq()),
{
    if header.packet_flags != 0 {
        return Err(ParseError::FixedHeaderReservedFlagsMismatch);
    }
    let ghost s0 = old(src).remaining_seq();
    let plen = match read_u16(src) {
        Ok(v) => v,
        Err(e) => return Err(e),
    };
    if plen != 4 {
        return Err(ParseError::InvalidProtocol);
    }
    if src.remaining() < 4 {
        return Err(ParseError::InvalidLength);
    }
    let ghost r0 = src.remaining_seq();
    let m1 = src.get_u8();
    let m2 = src.get_u8();
    let m3 = src.get_u8();
    let m4 = src.get_u8();
    proof {
        assert(src.remaining_seq() =~= r0.skip(4));
    }
    if !(m1 == 0x4d && m2 == 0x51 && m3 == 0x54 && m4 == 0x54) {
        return Err(ParseError::InvalidProtocol);
    }
    let ghost s1 = src.remaining_seq();
    if src.remaining() < 1 {
        return Err(ParseError::InvalidLength);
    }
    let level = src.get_u8();
    if level != DEFAULT_MQTT_LEVEL {
        return Err(ParseError::UnsupportedProtocolLevel);
    }
    if src.remaining() < 1 {
        return Err(ParseError::InvalidLength);
    }
    let cflags = src.get_u8();
    if cflags & 0x01 != 0 {
        return Err(ParseError::ConnectReservedFlagSet);
    }
    proof {
        assert(src.remaining_seq() =~= s1.skip(2));
    }
    let keep_alive = match read_u16(src) {
        Ok(v) => v,
        Err(e) => return Err(e),
    };
    let client_id = match decode_utf8_str(src) {
        Ok(v) => v,
        Err(e) => return Err(e),
    };
    if client_id.as_str().is_empty() && cflags & CLEAN_SESSION_FLAG == 0 {
        return Err(ParseError::InvalidClientId);
    }
    let last_will = if cflags & WILL_FLAG != 0 {
        let topic = match decode_utf8_str(src) {
            Ok(v) => v,
            Err(e) => return Err(e),
        };
        let message = match decode_length_bytes(src) {
            Ok(v) => v,
            Err(e) => return Err(e),
        };
        Some(
            LastWill {
                qos: qos_from_bits(cflags >> 3),
                retain: cflags & WILL_RETAIN_FLAG != 0,
                topic,
                message,
            },
        )
    } else {
        None
    };
    let username = if cflags & USERNAME_FLAG != 0 {
        match decode_utf8_str(src) {
            Ok(v) => Some(v),
            Err(e) => return Err(e),
        }
    } else {
        None
    };
    let password = if cflags & PASSWORD_FLAG != 0 {
        match decode_length_bytes(src) {
            Ok(v) => Some(v),
            Err(e) => return Err(e),
        }
    } else {
        None
    };
    Ok(
        Packet::Connect(
            Connect {
                protocol: Protocol::MQTT(level),
                clean_session: cflags & CLEAN_SESSION_FLAG != 0,
                keep_alive,
                client_id,
                last_will,
                username,
                password,
            },
        ),
    )
}

/// What decoding a ConnectAck body under fixed-header flags `hflags` yields.
pub open spec fn sp_connect_ack(hflags: u8, s: Seq<u8>) -> Result<PacketV, ParseError> {
    if hflags != 0 {
        Err(ParseError::FixedHeaderReservedFlagsMismatch)
    } else if s.len() < 2 {
        Err(ParseError::InvalidLength)
    } else if s[0] & 0xfe != 0 {
        Err(ParseError::ConnAckReservedFlagSet)
    } else {
        Ok(
            PacketV::ConnectAck {
                session_present: s[0] & 0x01 == 0x01,
                return_code: spec_connect_code_of(s[1]),
            },
        )
    }
}

/// Decodes a ConnectAck body: a flags byte carrying only session-present,
/// then a return-code byte.
pub fn decode_connect_ack_packet(src: &mut Cursor, header: FixedHeader) -> (r: Result<
    Packet,
    ParseError,
>)
    requires
        old(src).wf(),
    ensures
        final(src).wf(),
        view_result(r) == sp_connect_ack(header.packet_flags, old(src).remaining_seq()),
{
    if header.packet_flags != 0 {
        return Err(ParseError::FixedHeaderReservedFlagsMismatch);
    }
    if src.remaining() < 2 {
        return Err(ParseError::InvalidLength);
    }
    let flags = src.get_u8();
    if flags & 0xfe != 0 {
        return Err(ParseError::ConnAckReservedFlagSet);
    }
    let return_code = src.get_u8();
    Ok(
        Packet::ConnectAck {
            session_present: flags & 0x01 == 0x01,
            return_code: connect_code_from_byte(return_code),
        },
    )
}

/// What decoding a Publish body under fixed-header flags `hflags` yields.
///
/// The flag nibble carries dup, delivery level and retain; the
/// protocol-invalid level pattern 3 is rejected before any payload read.
/// The packet identifier is present exactly when the level is not
/// AtMostOnce, and the payload is whatever remains of the body window.
pub open spec fn sp_publish(hflags: u8, s: Seq<u8>) -> Result<PacketV, ParseError> {
    if hflags & 0x06 == 0x06 {
        Err(ParseError::FixedHeaderReservedFlagsMismatch)
    } else {
        match sp_str(s) {
            Err(e) => Err(e),
            Ok((topic, r0)) => {
                if spec_qos_of(hflags >> 1) == QoS::AtMostOnce {
                    Ok(
                        PacketV::Publish(
                            PublishV {
                                dup: hflags & 0x08 != 0,
                                qos: spec_qos_of(hflags >> 1),
                                retain: hflags & 0x01 != 0,
                                topic: topic,
                                packet_id: None,
                                payload: r0,
                            },
                        ),
                    )
                } else {
                    match sp_u16(r0) {
                        Err(e) => Err(e),
                        Ok((pid, r1)) => Ok(
                            PacketV::Publish(
                                PublishV {
                                    dup: hflags & 0x08 != 0,
                                    qos: spec_qos_of(hflags >> 1),
                                    retain: hflags & 0x01 != 0,
                                    topic: topic,
                                    packet_id: Some(pid),
                                    payload: r1,
                                },
                            ),
                        ),
                    }
                }
            },
        }
    }
}

/// Decodes a Publish body: topic, a packet identifier when the delivery
/// level asks for one, and the rest of the window as the payload.
pub fn decode_publish_packet(src: &mut Cursor, header: FixedHeader) -> (r: Result<
    Packet,
    ParseError,
>)
    requires
        old(src).wf(),
    ensures
        final(src).wf(),
        view_result(r) == sp_publish(header.packet_flags, old(src).remaining_seq()),
{
    let f = header.packet_flags;
    if f & 0x06 == 0x06 {
        return Err(ParseError::FixedHeaderReservedFlagsMismatch);
    }
    let topic = match decode_utf8_str(src) {
        Ok(v) => v,
        Err(e) => return Err(e),
    };
    let qos = qos_from_bits(f >> 1);
    let packet_id = if qos == QoS::AtMostOnce {
        None
    } else {
        match read_u16(src) {
            Ok(v) => Some(v),
            Err(e) => return Err(e),
        }
    };
    let ghost tail = src.remaining_seq();
    let n = src.remaining();
    let payload = src.take_bytes(n);
    proof {
        assert(bytes_seq(payload) =~= tail);
    }
    Ok(
        Packet::Publish(
            Publish {
                dup: f & 0x08 != 0,
                qos,
                retain: f & 0x01 != 0,
                topic,
                packet_id,
                payload,
            },
        ),
    )
}

/// What decoding a packet-identifier-only body yields: flags must equal
/// `want_flags`, then a single u16 field; trailing bytes are ignored.
pub open spec fn sp_pid_only(hflags: u8, want_flags: u8, s: Seq<u8>) -> Result<u16, ParseError> {
    if hflags != want_flags {
        Err(ParseError::FixedHeaderReservedFlagsMismatch)
    } else {
        match sp_u16(s) {
            Err(e) => Err(e),
            Ok((pid, _r)) => Ok(pid),
        }
    }
}

/// Reads the single packet-identifier field of an acknowledgement body
/// whose flag nibble must equal `want_flags`.
fn read_pid_only(src: &mut Cursor, hflags: u8, want_flags: u8) -> (r: Result<u16, ParseError>)
    requires
        old(src).wf(),
    ensures
        final(src).wf(),
        r == sp_pid_only(hflags, want_flags, old(src).remaining_seq()),
{
    if hflags != want_flags {
        return Err(ParseError::FixedHeaderReservedFlagsMismatch);
    }
    match read_u16(src) {
        Ok(v) => Ok(v),
        Err(e) => Err(e),
    }
}

/// What decoding a PublishAck body yields.
pub open spec fn sp_publish_ack(hflags: u8, s: Seq<u8>) -> Result<PacketV, ParseError> {
    match sp_pid_only(hflags, 0, s) {
        Ok(pid) => Ok(PacketV::PublishAck { packet_id: pid }),
        Err(e) => Err(e),
    }
}

/// Decodes a PublishAck body: zero flags, then a packet identifier.
pub fn decode_publish_ack_packet(src: &mut Cursor, header: FixedHeader) -> (r: Result<
    Packet,
    ParseError,
>)
    requires
        old(src).wf(),
    ensures
        final(src).wf(),
        view_result(r) == sp_publish_ack(header.packet_flags, old(src).remaining_seq()),
{
    match read_pid_only(src, header.packet_flags, 0) {
        Ok(pid) => Ok(Packet::PublishAck { packet_id: pid }),
        Err(e) => Err(e),
    }
}

/// What decoding a PublishReceived body yields.
pub open spec fn sp_publish_rec(hflags: u8, s: Seq<u8>) -> Result<PacketV, ParseError> {
    match sp_pid_only(hflags, 0, s) {
        Ok(pid) => Ok(PacketV::PublishReceived { packet_id: pid }),
        Err(e) => Err(e),
    }
}

/// Decodes a PublishReceived body: zero flags, then a packet identifier.
pub fn decode_publish_rec_packet(src: &mut Cursor, header: FixedHeader) -> (r: Result<
    Packet,
    ParseError,
>)
    requires
        old(src).wf(),
    ensures
        final(src).wf(),
        view_result(r) == sp_publish_rec(header.packet_flags, old(src).remaining_seq()),
{
    match read_pid_only(src, header.packet_flags, 0) {
        Ok(pid) => Ok(Packet::PublishReceived { packet_id: pid }),
        Err(e) => Err(e),
    }
}

/// What decoding a PublishRelease body yields; its flag nibble must be the
/// fixed reserved pattern 0b0010.
pub open spec fn sp_publish_rel(hflags: u8, s: Seq<u8>) -> Result<PacketV, ParseError> {
    match sp_pid_only(hflags, 0x02, s) {
        Ok(pid) => Ok(PacketV::PublishRelease { packet_id: pid }),
        Err(e) => Err(e),
    }
}

/// Decodes a PublishRelease body: the fixed 0b0010 flags, then a packet
/// identifier.
pub fn decode_publish_rel_packet(src: &mut Cursor, header: FixedHeader) -> (r: Result<
    Packet,
    ParseError,
>)
    requires
        old(src).wf(),
    ensures
        final(src).wf(),
        view_result(r) == sp_publish_rel(header.packet_flags, old(src).remaining_seq()),
{
    match read_pid_only(src, header.packet_flags, 0x02) {
        Ok(pid) => Ok(Packet::PublishRelease { packet_id: pid }),
        Err(e) => Err(e),
    }
}

/// What decoding a PublishComplete body yields.
pub open spec fn sp_publish_comp(hflags: u8, s: Seq<u8>) -> Result<PacketV, ParseError> {
    match sp_pid_only(hflags, 0, s) {
        Ok(pid) => Ok(PacketV::PublishComplete { packet_id: pid }),
        Err(e) => Err(e),
    }
}

/// Decodes a PublishComplete body: zero flags, then a packet identifier.
pub fn decode_publish_comp_packet(src: &mut Cursor, header: FixedHeader) -> (r: Result<
    Packet,
    ParseError,
>)
    requires
        old(src).wf(),
    ensures
        final(src).wf(),
        view_result(r) == sp_publish_comp(header.packet_flags, old(src).remaining_seq()),
{
    match read_pid_only(src, header.packet_flags, 0) {
        Ok(pid) => Ok(Packet::PublishComplete { packet_id: pid }),
        Err(e) => Err(e),
    }
}

/// What decoding an UnsubscribeAck body yields.
pub open spec fn sp_unsubscribe_ack(hflags: u8, s: Seq<u8>) -> Result<PacketV, ParseError> {
    match sp_pid_only(hflags, 0, s) {
        Ok(pid) => Ok(PacketV::UnsubscribeAck { packet_id: pid }),
        Err(e) => Err(e),
    }
}

/// Decodes an UnsubscribeAck body: zero flags, then a packet identifier.
pub fn decode_unsubscribe_ack_packet(src: &mut Cursor, header: FixedHeader) -> (r: Result<
    Packet,
    ParseError,
>)
    requires
        old(src).wf(),
    ensures
        final(src).wf(),
        view_result(r) == sp_unsubscribe_ack(header.packet_flags, old(src).remaining_seq()),
{
    match read_pid_only(src, header.packet_flags, 0) {
        Ok(pid) => Ok(Packet::UnsubscribeAck { packet_id: pid }),
        Err(e) => Err(e),
    }
}

/// The subscription entries encoded by `s`: repeated topic filter plus
/// requested-level byte, in byte order, until the window is exhausted.
pub open spec fn sp_sub_entries(s: Seq<u8>) -> Result<Seq<(Seq<char>, QoS)>, ParseError>
    decreases s.len(),
    via sp_sub_entries_dec
{
    if s.len() == 0 {
        Ok(Seq::empty())
    } else {
        match sp_str(s) {
            Err(e) => Err(e),
            Ok((t, r0)) => {
                if r0.len() < 1 {
                    Err(ParseError::InvalidLength)
                } else {
                    match sp_sub_entries(r0.skip(1)) {
                        Err(e) => Err(e),
                        Ok(rest) => Ok(seq![(t, spec_qos_of(r0[0]))] + rest),
                    }
                }
            },
        }
    }
}

#[via_fn]
proof fn sp_sub_entries_dec(s: Seq<u8>) {
    lemma_sp_str_shrinks(s);
}

/// What decoding a Subscribe body yields: the fixed 0b0010 flags, a packet
/// identifier, then entries until the window is exhausted.
pub open spec fn sp_subscribe(hflags: u8, s: Seq<u8>) -> Result<PacketV, ParseError> {
    if hflags != 0x02 {
        Err(ParseError::FixedHeaderReservedFlagsMismatch)
    } else {
        match sp_u16(s) {
            Err(e) => Err(e),
            Ok((pid, r)) => match sp_sub_entries(r) {
                Err(e) => Err(e),
                Ok(entries) => Ok(PacketV::Subscribe { packet_id: pid, topic_filters: entries }),
            },
        }
    }
}

/// Decodes a Subscribe body: packet identifier, then topic filters with
/// their requested levels, in the exact order the bytes appear.
#[verifier::loop_isolation(false)]
pub fn decode_subscribe_packet(src: &mut Cursor, header: FixedHeader) -> (r: Result<
    Packet,
    ParseError,
>)
    requires
        old(src).wf(),
    ensures
        final(src).wf(),
        view_result(r) == sp_subscribe(header.packet_flags, old(src).remaining_seq()),
{
    if header.packet_flags != 0x02 {
        return Err(ParseError::FixedHeaderReservedFlagsMismatch);
    }
    let packet_id = match read_u16(src) {
        Ok(v) => v,
        Err(e) => return Err(e),
    };
    let ghost s1 = src.remaining_seq();
    let mut topic_filters: Vec<(String, QoS)> = Vec::new();
    proof {
        assert(filters_view(topic_filters@) + sp_sub_entries(s1)->Ok_0 =~= sp_sub_entries(
            s1,
        )->Ok_0);
    }
    while src.remaining() > 0
        invariant
            src.wf(),
            match sp_sub_entries(src.remaining_seq()) {
                Ok(rest) => sp_sub_entries(s1) == Ok::<Seq<(Seq<char>, QoS)>, ParseError>(
                    filters_view(topic_filters@) + rest,
                ),
                Err(e) => sp_sub_entries(s1) == Err::<Seq<(Seq<char>, QoS)>, ParseError>(e),
            },
        decreases src.remaining_seq().len(),
    {
        let ghost cur = src.remaining_seq();
        let ghost acc = topic_filters@;
        let topic = match decode_utf8_str(src) {
            Ok(v) => v,
            Err(e) => {
                proof {
                    assert(sp_sub_entries(cur) == Err::<Seq<(Seq<char>, QoS)>, ParseError>(e));
                }
                return Err(e);
            },
        };
        if src.remaining() < 1 {
            proof {
                assert(sp_sub_entries(cur) == Err::<Seq<(Seq<char>, QoS)>, ParseError>(
                    ParseError::InvalidLength,
                ));
            }
            return Err(ParseError::InvalidLength);
        }
        let qb = src.get_u8();
        let qos = qos_from_bits(qb);
        topic_filters.push((topic, qos));
        proof {
            lemma_sp_str_shrinks(cur);
            let entry = (topic@, qos);
            assert(filters_view(acc.push((topic, qos))) =~= filters_view(acc).push(entry));
            match sp_sub_entries(src.remaining_seq()) {
                Ok(rest) => {
                    assert(filters_view(acc).push(entry) + rest =~= filters_view(acc) + (seq![entry]
                        + rest));
                },
                Err(_e) => {},
            }
        }
    }
    proof {
        assert(src.remaining_seq().len() == 0);
        assert(sp_sub_entries(src.remaining_seq()) == Ok::<Seq<(Seq<char>, QoS)>, ParseError>(
            Seq::empty(),
        ));
        assert(filters_view(topic_filters@) + Seq::<(Seq<char>, QoS)>::empty() =~= filters_view(
            topic_filters@,
        ));
    }
    Ok(Packet::Subscribe { packet_id, topic_filters })
}

/// The status entry one SubscribeAck byte names: 0x80 is failure, anything
/// else grants the level in its low two bits.
pub open spec fn sp_code_of(b: u8) -> SubscribeReturnCode {
    if b == 0x80 {
        SubscribeReturnCode::Failure
    } else {
        SubscribeReturnCode::Success(spec_qos_of(b))
    }
}

/// The status list encoded by `s`: one entry per byte, in byte order.
pub open spec fn sp_suback_codes(s: Seq<u8>) -> Seq<SubscribeReturnCode> {
    Seq::new(s.len(), |i: int| sp_code_of(s[i]))
}

/// What decoding a SubscribeAck body yields: zero flags, a packet
/// identifier, then one status byte per granted filter.
pub open spec fn sp_subscribe_ack(hflags: u8, s: Seq<u8>) -> Result<PacketV, ParseError> {
    if hflags != 0 {
        Err(ParseError::FixedHeaderReservedFlagsMismatch)
    } else {
        match sp_u16(s) {
            Err(e) => Err(e),
            Ok((pid, r)) => Ok(
                PacketV::SubscribeAck { packet_id: pid, status: sp_suback_codes(r) },
            ),
        }
    }
}

/// Decodes a SubscribeAck body: packet identifier, then status bytes in the
/// exact order they appear.
pub fn decode_subscribe_ack_packet(src: &mut Cursor, header: FixedHeader) -> (r: Result<
    Packet,
    ParseError,
>)
    requires
        old(src).wf(),
    ensures
        final(src).wf(),
        view_result(r) == sp_subscribe_ack(header.packet_flags, old(src).remaining_seq()),
{
    if header.packet_flags != 0 {
        return Err(ParseError::FixedHeaderReservedFlagsMismatch);
    }
    let packet_id = match read_u16(src) {
        Ok(v) => v,
        Err(e) => return Err(e),
    };
    let ghost s1 = src.remaining_seq();
    let mut status: Vec<SubscribeReturnCode> = Vec::new();
    while src.remaining() > 0
        invariant
            src.wf(),
            status@.len() <= s1.len(),
            src.remaining_seq() == s1.skip(status@.len() as int),
            status@ == sp_suback_codes(s1).take(status@.len() as int),
        decreases src.remaining_seq().len(),
    {
        let ghost k = status@.len() as int;
        let b = src.get_u8();
        let code = if b == 0x80 {
            SubscribeReturnCode::Failure
        } else {
            SubscribeReturnCode::Success(qos_from_bits(b))
        };
        status.push(code);
        proof {
            assert(b == s1[k]);
            assert(status@ =~= sp_suback_codes(s1).take(k + 1));
            assert(src.remaining_seq() =~= s1.skip(k + 1));
        }
    }
    proof {
        assert(status@ =~= sp_suback_codes(s1));
    }
    Ok(Packet::SubscribeAck { packet_id, status })
}

/// The topic filters encoded by `s`: repeated length-prefixed strings, in
/// byte order, until the window is exhausted.
pub open spec fn sp_unsub_entries(s: Seq<u8>) -> Result<Seq<Seq<char>>, ParseError>
    decreases s.len(),
    via sp_unsub_entries_dec
{
    if s.len() == 0 {
        Ok(Seq::empty())
    } else {
        match sp_str(s) {
            Err(e) => Err(e),
            Ok((t, r0)) => match sp_unsub_entries(r0) {
                Err(e) => Err(e),
                Ok(rest) => Ok(seq![t] + rest),
            },
        }
    }
}

#[via_fn]
proof fn sp_unsub_entries_dec(s: Seq<u8>) {
    lemma_sp_str_shrinks(s);
}

/// What decoding an Unsubscribe body yields: the fixed 0b0010 flags, a
/// packet identifier, then filters until the window is exhausted.
pub open spec fn sp_unsubscribe(hflags: u8, s: Seq<u8>) -> Result<PacketV, ParseError> {
    if hflags != 0x02 {
        Err(ParseError::FixedHeaderReservedFlagsMismatch)
    } else {
        match sp_u16(s) {
            Err(e) => Err(e),
            Ok((pid, r)) => match sp_unsub_entries(r) {
                Err(e) => Err(e),
                Ok(entries) => Ok(PacketV::Unsubscribe { packet_id: pid, topic_filters: entries }),
            },
        }
    }
}

/// Decodes an Unsubscribe body: packet identifier, then topic filters in
/// the exact order the bytes appear.
#[verifier::loop_isolation(false)]
pub fn decode_unsubscribe_packet(src: &mut Cursor, header: FixedHeader) -> (r: Result<
    Packet,
    ParseError,
>)
    requires
        old(src).wf(),
    ensures
        final(src).wf(),
        view_result(r) == sp_unsubscribe(header.packet_flags, old(src).remaining_seq()),
{
    if header.packet_flags != 0x02 {
        return Err(ParseError::FixedHeaderReservedFlagsMismatch);
    }
    let packet_id = match read_u16(src) {
        Ok(v) => v,
        Err(e) => return Err(e),
    };
    let ghost s1 = src.remaining_seq();
    let mut topic_filters: Vec<String> = Vec::new();
    proof {
        assert(topics_view(topic_filters@) + sp_unsub_entries(s1)->Ok_0 =~= sp_unsub_entries(
            s1,
        )->Ok_0);
    }
    while src.remaining() > 0
        invariant
            src.wf(),
            match sp_unsub_entries(src.remaining_seq()) {
                Ok(rest) => sp_unsub_entries(s1) == Ok::<Seq<Seq<char>>, ParseError>(
                    topics_view(topic_filters@) + rest,
                ),
                Err(e) => sp_unsub_entries(s1) == Err::<Seq<Seq<char>>, ParseError>(e),
            },
        decreases src.remaining_seq().len(),
    {
        let ghost cur = src.remaining_seq();
        let ghost acc = topic_filters@;
        let topic = match decode_utf8_str(src) {
            Ok(v) => v,
            Err(e) => {
                proof {
                    assert(sp_unsub_entries(cur) == Err::<Seq<Seq<char>>, ParseError>(e));
                }
                return Err(e);
            },
        };
        topic_filters.push(topic);
        proof {
            lemma_sp_str_shrinks(cur);
            let entry = topic@;
            assert(topics_view(acc.push(topic)) =~= topics_view(acc).push(entry));
            match sp_unsub_entries(src.remaining_seq()) {
                Ok(rest) => {
                    assert(topics_view(acc).push(entry) + rest =~= topics_view(acc) + (seq![entry]
                        + rest));
                },
                Err(_e) => {},
            }
        }
    }
    proof {
        assert(src.remaining_seq().len() == 0);
        assert(sp_unsub_entries(src.remaining_seq()) == Ok::<Seq<Seq<char>>, ParseError>(
            Seq::empty(),
        ));
        assert(topics_view(topic_filters@) + Seq::<Seq<char>>::empty() =~= topics_view(
            topic_filters@,
        ));
    }
    Ok(Packet::Unsubscribe { packet_id, topic_filters })
}

/// What decoding a body under a fixed header yields, by packet type code.
pub open spec fn sp_read_packet(ptype: u8, hflags: u8, s: Seq<u8>) -> Result<PacketV, ParseError> {
    if ptype == CONNECT {
        sp_connect(hflags, s)
    } else if ptype == CONNACK {
        sp_connect_ack(hflags, s)
    } else if ptype == PUBLISH {
        sp_publish(hflags, s)
    } else if ptype == PUBACK {
        sp_publish_ack(hflags, s)
    } else if ptype == PUBREC {
        sp_publish_rec(hflags, s)
    } else if ptype == PUBREL {
        sp_publish_rel(hflags, s)
    } else if ptype == PUBCOMP {
        sp_publish_comp(hflags, s)
    } else if ptype == SUBSCRIBE {
        sp_subscribe(hflags, s)
    } else if ptype == SUBACK {
        sp_subscribe_ack(hflags, s)
    } else if ptype == UNSUBSCRIBE {
        sp_unsubscribe(hflags, s)
    } else if ptype == UNSUBACK {
        sp_unsubscribe_ack(hflags, s)
    } else if ptype == PINGREQ {
        if hflags != 0 {
            Err(ParseError::FixedHeaderReservedFlagsMismatch)
        } else {
            Ok(PacketV::PingRequest)
        }
    } else if ptype == PINGRESP {
        if hflags != 0 {
            Err(ParseError::FixedHeaderReservedFlagsMismatch)
        } else {
            Ok(PacketV::PingResponse)
        }
    } else if ptype == DISCONNECT {
        if hflags != 0 {
            Err(ParseError::FixedHeaderReservedFlagsMismatch)
        } else {
            Ok(PacketV::Disconnect)
        }
    } else {
        Err(ParseError::UnsupportedPacketType)
    }
}

/// Decodes one packet body.
///
/// The cursor must be scoped to exactly the body window the fixed header
/// declared; the per-type decoder validates the flag nibble, then reads the
/// type's fields strictly in wire order.
pub fn read_packet(src: &mut Cursor, header: FixedHeader) -> (r: Result<Packet, ParseError>)
    requires
        old(src).wf(),
        old(src).remaining_seq().len() == header.remaining_length,
    ensures
        final(src).wf(),
        view_result(r) == sp_read_packet(
            header.packet_type,
            header.packet_flags,
            old(src).remaining_seq(),
        ),
{
    if header.packet_type == CONNECT {
        decode_connect_packet(src, header)
    } else if header.packet_type == CONNACK {
        decode_connect_ack_packet(src, header)
    } else if header.packet_type == PUBLISH {
        decode_publish_packet(src, header)
    } else if header.packet_type == PUBACK {
        decode_publish_ack_packet(src, header)
    } else if header.packet_type == PUBREC {
        decode_publish_rec_packet(src, header)
    } else if header.packet_type == PUBREL {
        decode_publish_rel_packet(src, header)
    } else if header.packet_type == PUBCOMP {
        decode_publish_comp_packet(src, header)
    } else if header.packet_type == SUBSCRIBE {
        decode_subscribe_packet(src, header)
    } else if header.packet_type == SUBACK {
        decode_subscribe_ack_packet(src, header)
    } else if header.packet_type == UNSUBSCRIBE {
        decode_unsubscribe_packet(src, header)
    } else if header.packet_type == UNSUBACK {
        decode_unsubscribe_ack_packet(src, header)
    } else if header.packet_type == PINGREQ {
        if header.packet_flags != 0 {
            Err(ParseError::FixedHeaderReservedFlagsMismatch)
        } else {
            Ok(Packet::PingRequest)
        }
    } else if header.packet_type == PINGRESP {
        if header.packet_flags != 0 {
            Err(ParseError::FixedHeaderReservedFlagsMismatch)
        } else {
            Ok(Packet::PingResponse)
        }
    } else if header.packet_type == DISCONNECT {
        if header.packet_flags != 0 {
            Err(ParseError::FixedHeaderReservedFlagsMismatch)
        } else {
            Ok(Packet::Disconnect)
        }
    } else {
        Err(ParseError::UnsupportedPacketType)
    }
}

/// What decoding a fixed header off the front of `s` yields: the type and
/// flag nibbles of the first byte, then the variable-length remaining
/// length, or `None` while either is still incomplete.
pub open spec fn sp_fixed_header(s: Seq<u8>) -> Result<Option<(FixedHeader, int)>, ParseError> {
    if s.len() == 0 {
        Ok(None)
    } else {
        match sp_varint(s.skip(1)) {
            Err(e) => Err(e),
            Ok(None) => Ok(None),
            Ok(Some((v, c))) => Ok(
                Some(
                    (
                        FixedHeader {
                            packet_type: s[0] >> 4,
                            packet_flags: s[0] & 0x0f,
                            remaining_length: v as usize,
                        },
                        1 + c,
                    ),
                ),
            ),
        }
    }
}

/// Decodes a fixed header from the front of `src` without consuming
/// anything: the result reports how many bytes the header occupies, and an
/// incomplete header is `None`, not an error, so a retry with more bytes
/// sees the same position.
pub fn decode_fixed_header(src: &[u8]) -> (r: Result<Option<(FixedHeader, usize)>, ParseError>)
    ensures
        match sp_fixed_header(src@) {
            Ok(Some((h, c))) => r == Ok::<Option<(FixedHeader, usize)>, ParseError>(
                Some((h, c as usize)),
            ) && 2 <= c <= 5 && c <= src@.len() && h.remaining_length <= 268435455,
            Ok(None) => r == Ok::<Option<(FixedHeader, usize)>, ParseError>(None),
            Err(e) => r == Err::<Option<(FixedHeader, usize)>, ParseError>(e),
        },
{
    if src.len() == 0 {
        return Ok(None);
    }
    let b0 = *vstd::slice::slice_index_get(src, 0);
    let tail = vstd::slice::slice_subrange(src, 1, src.len());
    proof {
        assert(tail@ =~= src@.skip(1));
    }
    match decode_variable_length(tail) {
        Err(e) => Err(e),
        Ok(None) => Ok(None),
        Ok(Some((value, consumed))) => Ok(
            Some(
                (
                    FixedHeader {
                        packet_type: b0 >> 4,
                        packet_flags: b0 & 0x0f,
                        remaining_length: value,
                    },
                    1 + consumed,
                ),
            ),
        ),
    }
}

/// The outcome a full-frame decode carries, by value.
pub open spec fn view_packet_opt(r: Result<Option<(Packet, usize)>, ParseError>) -> Result<
    Option<(PacketV, int)>,
    ParseError,
> {
    match r {
        Ok(Some((p, n))) => Ok(Some((p@, n as int))),
        Ok(None) => Ok(None),
        Err(e) => Err(e),
    }
}

/// What decoding one whole frame off the front of `s` yields: a fixed
/// header, then exactly the body window it declares, or `None` until both
/// have fully arrived.
pub open spec fn sp_decode_packet(s: Seq<u8>) -> Result<Option<(PacketV, int)>, ParseError> {
    match sp_fixed_header(s) {
        Err(e) => Err(e),
        Ok(None) => Ok(None),
        Ok(Some((h, c))) => {
            if s.len() < c + h.remaining_length {
                Ok(None)
            } else {
                match sp_read_packet(
                    h.packet_type,
                    h.packet_flags,
                    s.subrange(c, c + h.remaining_length),
                ) {
                    Err(e) => Err(e),
                    Ok(pv) => Ok(Some((pv, c + h.remaining_length))),
                }
            }
        },
    }
}

/// Decodes one whole frame from the front of `src`: fixed header plus
/// exactly the body window it declares.  Returns the packet and the total
/// byte count consumed, `None` while the frame is still incomplete (nothing
/// is consumed in that case, `src` is untouched), or the first decode
/// error.
pub fn decode_packet(src: &[u8]) -> (r: Result<Option<(Packet, usize)>, ParseError>)
    ensures
        view_packet_opt(r) == sp_decode_packet(src@),
{
    let (header, hlen) = match decode_fixed_header(src) {
        Err(e) => return Err(e),
        Ok(None) => return Ok(None),
        Ok(Some(p)) => p,
    };
    if src.len() - hlen < header.remaining_length {
        return Ok(None);
    }
    let window = vstd::slice::slice_subrange(src, hlen, hlen + header.remaining_length);
    let body = bytes_from_slice(window);
    let mut cursor = Cursor::new(body);
    match read_packet(&mut cursor, header) {
        Err(e) => Err(e),
        Ok(p) => Ok(Some((p, hlen + header.remaining_length))),
    }
}

/// A decoded Publish frame carries a packet identifier exactly when its
/// delivery level is not AtMostOnce.
pub proof fn lemma_publish_packet_id(hflags: u8, s: Seq<u8>)
    ensures
        sp_publish(hflags, s) matches Ok(pv) ==> pv matches PacketV::Publish(p) && (p.packet_id
            is Some <==> p.qos != QoS::AtMostOnce),
{
}

/// A Publish frame whose delivery level demands a packet identifier but
/// whose window ends before one is malformed: the decode fails with
/// `InvalidLength`.
pub proof fn lemma_publish_missing_packet_id(hflags: u8, s: Seq<u8>)
    requires
        hflags & 0x06 != 0x06,
        hflags & 0x06 != 0,
        sp_str(s) matches Ok((t, r)) && r.len() < 2,
    ensures
        sp_publish(hflags, s) == Err::<PacketV, ParseError>(ParseError::InvalidLength),
{
    assert(((hflags >> 1) & 3 == 0) <==> (hflags & 0x06 == 0)) by (bit_vector);
}

/// A length-prefixed string at the front of a window reads the same when
/// more bytes follow the window.
pub proof fn lemma_sp_str_prefix(s: Seq<u8>, t: Seq<u8>)
    ensures
        sp_str(s) matches Ok((c, r)) ==> sp_str(s + t) == Ok::<(Seq<char>, Seq<u8>), ParseError>(
            (c, r + t),
        ),
{
    if sp_str(s) is Ok {
        let u = s + t;
        let p = sp_u16(s)->Ok_0;
        let n = p.0 as int;
        let rest = p.1;
        assert(u[0] == s[0] && u[1] == s[1]);
        assert(u.skip(2) =~= rest + t);
        assert((rest + t).take(n) =~= rest.take(n));
        assert((rest + t).skip(n) =~= rest.skip(n) + t);
    }
}

/// Subscription entries concatenate: a window made of two decodable entry
/// windows yields the first window's entries followed by the second's.
/// Entries come out in the exact order their bytes appear, and the list
/// length is fixed by exhausting the window alone.
pub proof fn lemma_sub_entries_append(s: Seq<u8>, t: Seq<u8>)
    requires
        sp_sub_entries(s) is Ok,
        sp_sub_entries(t) is Ok,
    ensures
        sp_sub_entries(s + t) == Ok::<Seq<(Seq<char>, QoS)>, ParseError>(
            sp_sub_entries(s)->Ok_0 + sp_sub_entries(t)->Ok_0,
        ),
    decreases s.len(),
{
    if s.len() == 0 {
        assert(s + t =~= t);
        assert(sp_sub_entries(s)->Ok_0 + sp_sub_entries(t)->Ok_0 =~= sp_sub_entries(t)->Ok_0);
    } else {
        let p = sp_str(s)->Ok_0;
        let e = (p.0, spec_qos_of(p.1[0]));
        let r0 = p.1;
        lemma_sp_str_prefix(s, t);
        lemma_sp_str_shrinks(s);
        assert((s + t).len() != 0);
        assert((r0 + t)[0] == r0[0]);
        assert((r0 + t).skip(1) =~= r0.skip(1) + t);
        lemma_sub_entries_append(r0.skip(1), t);
        assert(seq![e] + (sp_sub_entries(r0.skip(1))->Ok_0 + sp_sub_entries(t)->Ok_0) =~= (seq![e]
            + sp_sub_entries(r0.skip(1))->Ok_0) + sp_sub_entries(t)->Ok_0);
    }
}

/// Unsubscribe filters concatenate the same way: byte order in, list order
/// out, with the list length fixed by exhausting the window alone.
pub proof fn lemma_unsub_entries_append(s: Seq<u8>, t: Seq<u8>)
    requires
        sp_unsub_entries(s) is Ok,
        sp_unsub_entries(t) is Ok,
    ensures
        sp_unsub_entries(s + t) == Ok::<Seq<Seq<char>>, ParseError>(
            sp_unsub_entries(s)->Ok_0 + sp_unsub_entries(t)->Ok_0,
        ),
    decreases s.len(),
{
    if s.len() == 0 {
        assert(s + t =~= t);
        assert(sp_unsub_entries(s)->Ok_0 + sp_unsub_entries(t)->Ok_0 =~= sp_unsub_entries(
            t,
        )->Ok_0);
    } else {
        let p = sp_str(s)->Ok_0;
        let e = p.0;
        let r0 = p.1;
        lemma_sp_str_prefix(s, t);
        lemma_sp_str_shrinks(s);
        assert((s + t).len() != 0);
        lemma_unsub_entries_append(r0, t);
        assert(seq![e] + (sp_unsub_entries(r0)->Ok_0 + sp_unsub_entries(t)->Ok_0) =~= (seq![e]
            + sp_unsub_entries(r0)->Ok_0) + sp_unsub_entries(t)->Ok_0);
    }
}

/// SubscribeAck statuses concatenate bytewise: one entry per byte, in the
/// exact order the bytes appear.
pub proof fn lemma_suback_codes_append(s: Seq<u8>, t: Seq<u8>)
    ensures
        sp_suback_codes(s + t) == sp_suback_codes(s) + sp_suback_codes(t),
{
    assert(sp_suback_codes(s + t) =~= sp_suback_codes(s) + sp_suback_codes(t));
}

/// The optional Connect fields mirror the connect-flags byte: the last will
/// is present exactly when the WILL bit is set, and the username and
/// password exactly when their bits are set.
pub proof fn lemma_connect_optional_fields(cflags: u8, keep_alive: u16, s: Seq<u8>)
    ensures
        sp_connect_fields(cflags, keep_alive, s) matches Ok(pv) ==> pv matches PacketV::Connect(c)
            && (c.last_will is Some <==> cflags & WILL_FLAG != 0) && (c.username is Some
            <==> cflags & USERNAME_FLAG != 0) && (c.password is Some <==> cflags & PASSWORD_FLAG
            != 0) && c.clean_session == (cflags & CLEAN_SESSION_FLAG != 0),
{
}

} // verus!
