mod buf;
mod decode;
mod error;
mod packet;
mod varint;

pub use buf::Cursor;
pub use buf::bytes_seq;
pub use buf::utf8_chars;
pub use decode::CLEAN_SESSION_FLAG;
pub use decode::PASSWORD_FLAG;
pub use decode::USERNAME_FLAG;
pub use decode::WILL_FLAG;
pub use decode::WILL_RETAIN_FLAG;
pub use decode::decode_connect_ack_packet;
pub use decode::decode_connect_packet;
pub use decode::decode_fixed_header;
pub use decode::decode_length_bytes;
pub use decode::decode_packet;
pub use decode::decode_publish_ack_packet;
pub use decode::decode_publish_comp_packet;
pub use decode::decode_publish_packet;
pub use decode::decode_publish_rec_packet;
pub use decode::decode_publish_rel_packet;
pub use decode::decode_subscribe_ack_packet;
pub use decode::decode_subscribe_packet;
pub use decode::decode_unsubscribe_ack_packet;
pub use decode::decode_unsubscribe_packet;
pub use decode::decode_utf8_str;
pub use decode::lemma_connect_optional_fields;
pub use decode::lemma_publish_missing_packet_id;
pub use decode::lemma_publish_packet_id;
pub use decode::lemma_sp_str_prefix;
pub use decode::lemma_sp_str_shrinks;
pub use decode::lemma_sub_entries_append;
pub use decode::lemma_suback_codes_append;
pub use decode::lemma_unsub_entries_append;
pub use decode::read_packet;
pub use decode::read_u16;
pub use decode::sp_bytes;
pub use decode::sp_code_of;
pub use decode::sp_connect;
pub use decode::sp_connect_ack;
pub use decode::sp_connect_fields;
pub use decode::sp_decode_packet;
pub use decode::sp_fixed_header;
pub use decode::sp_publish;
pub use decode::sp_read_packet;
pub use decode::sp_str;
pub use decode::sp_sub_entries;
pub use decode::sp_suback_codes;
pub use decode::sp_subscribe;
pub use decode::sp_subscribe_ack;
pub use decode::sp_u16;
pub use decode::sp_unsub_entries;
pub use decode::sp_unsubscribe;
pub use decode::view_packet_opt;
pub use decode::view_result;
pub use error::ParseError;
pub use packet::CONNACK;
pub use packet::CONNECT;
pub use packet::Connect;
pub use packet::ConnectCode;
pub use packet::ConnectV;
pub use packet::DEFAULT_MQTT_LEVEL;
pub use packet::DISCONNECT;
pub use packet::FixedHeader;
pub use packet::LastWill;
pub use packet::LastWillV;
pub use packet::PINGREQ;
pub use packet::PINGRESP;
pub use packet::PUBACK;
pub use packet::PUBCOMP;
pub use packet::PUBLISH;
pub use packet::PUBREC;
pub use packet::PUBREL;
pub use packet::Packet;
pub use packet::PacketV;
pub use packet::Protocol;
pub use packet::Publish;
pub use packet::PublishV;
pub use packet::QoS;
pub use packet::SUBACK;
pub use packet::SUBSCRIBE;
pub use packet::SubscribeReturnCode;
pub use packet::UNSUBACK;
pub use packet::UNSUBSCRIBE;
pub use packet::connect_code_from_byte;
pub use packet::filters_view;
pub use packet::qos_from_bits;
pub use packet::spec_connect_code_of;
pub use packet::spec_qos_of;
pub use packet::topics_view;
pub use varint::decode_variable_length;
pub use varint::pow128;
pub use varint::sp_varint;
pub use varint::sp_varint_at;
pub use varint::varint_value;
