//! Decoding of received bytes and the checks on a packet.
//!
//! A packet is read as an IPv4 header, options allowed, and an ICMP, TCP or
//! UDP header behind it. Decoding checks the framing only; the checksums are a
//! matter of their own.

use crate::bytes::{get_u16, get_u32, read_be16, read_be32};
use crate::checksum::{
    checksum, internet_checksum, pseudo_header_checksum, transport_checksum,
};
use crate::error::ErrorCode;
use crate::packet::{Packet, Protocol};
use vstd::prelude::*;
use vstd::slice::{slice_subrange, slice_to_vec};

verus! {

/// The header fields that decoding reads out of a packet's bytes.
#[derive(Clone, Copy, Debug, PartialEq, Eq, Structural)]
pub struct Decoded {
    pub protocol: Protocol,
    pub length: usize,
    pub src_ip: u32,
    pub dst_ip: u32,
    pub src_port: u16,
    pub dst_port: u16,
    pub checksum: u16,
}

/// The length of the IPv4 header that `s` starts with, as its first byte
/// gives it.
pub open spec fn header_len(s: Seq<u8>) -> int {
    (s[0] % 16) * 4
}

/// The length of the whole packet, as the IPv4 header gives it.
pub open spec fn total_len(s: Seq<u8>) -> int {
    read_be16(s, 2) as int
}

/// The protocol that the IPv4 header names.
pub open spec fn protocol_of(s: Seq<u8>) -> Protocol {
    Protocol::spec_from_number(s[9])
}

/// The transport header fits the bytes that the IPv4 header leaves for it: an
/// ICMP message has its eight bytes, a TCP segment its header of the length it
/// states, a UDP datagram the length it states.
pub open spec fn transport_framed(s: Seq<u8>) -> bool {
    let h = header_len(s);
    let rest = total_len(s) - h;
    match protocol_of(s) {
        Protocol::ICMP => rest >= 8,
        Protocol::TCP => rest >= 20 && 20 <= (s[h + 12] / 16) * 4 <= rest,
        Protocol::UDP => rest >= 8 && read_be16(s, h + 4) == rest,
        Protocol::OTHER => true,
    }
}

/// `s` starts with a whole IPv4 packet: version 4, a header of at least five
/// words, a total length that covers the header and lies within `s`, and a
/// transport header that fits.
pub open spec fn framed(s: Seq<u8>) -> bool {
    &&& s.len() >= 20
    &&& s[0] / 16 == 4
    &&& 20 <= header_len(s)
    &&& header_len(s) <= total_len(s)
    &&& total_len(s) <= s.len()
    &&& transport_framed(s)
}

/// The fields of the packet that `s` starts with. Ports are zero where the
/// protocol has none; the checksum is that of the ICMP, TCP or UDP header,
/// zero for any other protocol.
pub open spec fn fields_of(s: Seq<u8>) -> Decoded {
    let h = header_len(s);
    let protocol = protocol_of(s);
    Decoded {
        protocol,
        length: total_len(s) as usize,
        src_ip: read_be32(s, 12),
        dst_ip: read_be32(s, 16),
        src_port: match protocol {
            Protocol::TCP | Protocol::UDP => read_be16(s, h),
            _ => 0,
        },
        dst_port: match protocol {
            Protocol::TCP | Protocol::UDP => read_be16(s, h + 2),
            _ => 0,
        },
        checksum: match protocol {
            Protocol::ICMP => read_be16(s, h + 2),
            Protocol::TCP => read_be16(s, h + 16),
            Protocol::UDP => read_be16(s, h + 6),
            Protocol::OTHER => 0,
        },
    }
}

/// What decoding yields: the fields of a framed packet, nothing otherwise.
pub open spec fn spec_decode(s: Seq<u8>) -> Option<Decoded> {
    if framed(s) {
        Some(fields_of(s))
    } else {
        None
    }
}

impl Packet {
    /// The header fields that the packet states beside its bytes.
    pub open spec fn fields(&self) -> Decoded {
        Decoded {
            protocol: self.protocol,
            length: self.length,
            src_ip: self.src_ip,
            dst_ip: self.dst_ip,
            src_port: self.src_port,
            dst_port: self.dst_port,
            checksum: self.checksum,
        }
    }

    /// The packet is structurally sound: its length lies within the buffer,
    /// and its bytes decode to exactly the fields it states, the length among
    /// them.
    pub open spec fn is_valid(&self) -> bool {
        &&& self.wf()
        &&& spec_decode(self.wire()) == Some(self.fields())
    }
}

/// Reads the header fields out of `raw`.
///
/// Fails with `PacketParseFailed` exactly when `raw` does not start with a
/// framed packet.
pub fn decode(raw: &[u8]) -> (r: Result<Decoded, ErrorCode>)
    ensures
        framed(raw@) ==> r == Ok::<Decoded, ErrorCode>(fields_of(raw@)),
        !framed(raw@) ==> r == Err::<Decoded, ErrorCode>(ErrorCode::PacketParseFailed),
{
    let len = raw.len();
    if len < 20 {
        return Err(ErrorCode::PacketParseFailed);
    }
    let first = raw[0];
    if first / 16 != 4 {
        return Err(ErrorCode::PacketParseFailed);
    }
    let h: usize = ((first % 16) as usize) * 4;
    let total: usize = get_u16(raw, 2) as usize;
    if h < 20 || total < h || len < total {
        return Err(ErrorCode::PacketParseFailed);
    }
    let rest = total - h;
    let protocol = Protocol::from_number(raw[9]);
    let src_ip = get_u32(raw, 12);
    let dst_ip = get_u32(raw, 16);
    let mut src_port: u16 = 0;
    let mut dst_port: u16 = 0;
    let mut sum: u16 = 0;
    match protocol {
        Protocol::ICMP => {
            if rest < 8 {
                return Err(ErrorCode::PacketParseFailed);
            }
            sum = get_u16(raw, h + 2);
        },
        Protocol::TCP => {
            if rest < 20 {
                return Err(ErrorCode::PacketParseFailed);
            }
            let data_offset: usize = ((raw[h + 12] / 16) as usize) * 4;
            if data_offset < 20 || data_offset > rest {
                return Err(ErrorCode::PacketParseFailed);
            }
            src_port = get_u16(raw, h);
            dst_port = get_u16(raw, h + 2);
            sum = get_u16(raw, h + 16);
        },
        Protocol::UDP => {
            if rest < 8 {
                return Err(ErrorCode::PacketParseFailed);
            }
            let udp_len: usize = get_u16(raw, h + 4) as usize;
            if udp_len != rest {
                return Err(ErrorCode::PacketParseFailed);
            }
            src_port = get_u16(raw, h);
            dst_port = get_u16(raw, h + 2);
            sum = get_u16(raw, h + 6);
        },
        Protocol::OTHER => {},
    }
    Ok(Decoded { protocol, length: total, src_ip, dst_ip, src_port, dst_port, checksum: sum })
}

/// Decodes received bytes into a packet of their own: the fields that the
/// headers state, and a buffer that holds exactly the packet's bytes. Bytes
/// behind the packet's total length are left out.
///
/// Fails with `PacketParseFailed` exactly when `raw` does not start with a
/// framed packet.
pub fn parse(raw: &[u8]) -> (r: Result<Packet, ErrorCode>)
    ensures
        framed(raw@) ==> r is Ok && r->Ok_0.fields() == fields_of(raw@) && r->Ok_0.data@
            == raw@.subrange(0, total_len(raw@)) && r->Ok_0.is_valid(),
        !framed(raw@) ==> r is Err && r->Err_0 == ErrorCode::PacketParseFailed,
{
    match decode(raw) {
        Err(e) => Err(e),
        Ok(d) => {
            let data = slice_to_vec(slice_subrange(raw, 0, d.length));
            proof {
                lemma_framing_is_local(raw@, data@);
            }
            let packet = Packet {
                protocol: d.protocol,
                length: d.length,
                src_ip: d.src_ip,
                dst_ip: d.dst_ip,
                src_port: d.src_port,
                dst_port: d.dst_port,
                checksum: d.checksum,
                data,
            };
            assert(packet.wire() =~= data@);
            Ok(packet)
        },
    }
}

/// Framing and fields depend only on the bytes within the total length.
pub proof fn lemma_framing_is_local(s: Seq<u8>, t: Seq<u8>)
    requires
        framed(s),
        t == s.subrange(0, total_len(s)),
    ensures
        framed(t),
        fields_of(t) == fields_of(s),
{
    assert(t[0] == s[0]);
    assert(t[2] == s[2]);
    assert(t[3] == s[3]);
    assert(t[9] == s[9]);
    let h = header_len(s);
    assert(forall|i: int| 0 <= i < total_len(s) ==> t[i] == s[i]);
}

/// Tells whether a packet is structurally sound. Checksums are not looked at:
/// `verify_packet_checksums` does that.
///
/// A packet of length zero is never valid, nor one shorter than the headers of
/// its protocol.
pub fn packet_validate(packet: &Packet) -> (valid: bool)
    ensures
        valid == packet.is_valid(),
        packet.length == 0 ==> !valid,
        valid ==> packet.length >= packet.protocol.spec_min_size(),
{
    if packet.length > packet.data.len() {
        return false;
    }
    let wire = slice_subrange(packet.data.as_slice(), 0, packet.length);
    match decode(wire) {
        Err(_) => false,
        Ok(d) => {
            d.protocol == packet.protocol && d.length == packet.length && d.src_ip == packet.src_ip
                && d.dst_ip == packet.dst_ip && d.src_port == packet.src_port && d.dst_port
                == packet.dst_port && d.checksum == packet.checksum
        },
    }
}

/// The checksums in a framed packet hold: that of the IPv4 header over the
/// header, that of an ICMP message over the message, that of a TCP segment or
/// a UDP datagram under the pseudo-header. A UDP checksum field of zero says
/// that none was computed, and holds.
pub open spec fn checksums_hold(s: Seq<u8>) -> bool {
    let h = header_len(s);
    let message = s.subrange(h, total_len(s));
    &&& internet_checksum(s.subrange(0, h)) == 0
    &&& match protocol_of(s) {
        Protocol::ICMP => internet_checksum(message) == 0,
        Protocol::TCP => transport_checksum(
            read_be32(s, 12),
            read_be32(s, 16),
            crate::packet::IPPROTO_TCP,
            message,
        ) == 0,
        Protocol::UDP => read_be16(s, h + 6) == 0 || transport_checksum(
            read_be32(s, 12),
            read_be32(s, 16),
            crate::packet::IPPROTO_UDP,
            message,
        ) == 0,
        Protocol::OTHER => true,
    }
}

/// Tells whether a packet is structurally sound and all its checksums hold.
pub fn verify_packet_checksums(packet: &Packet) -> (ok: bool)
    ensures
        ok == (packet.is_valid() && checksums_hold(packet.wire())),
{
    if !packet_validate(packet) {
        return false;
    }
    let wire = slice_subrange(packet.data.as_slice(), 0, packet.length);
    let h: usize = ((wire[0] % 16) as usize) * 4;
    let total: usize = packet.length;
    if checksum(slice_subrange(wire, 0, h)) != 0 {
        return false;
    }
    let message = slice_subrange(wire, h, total);
    match packet.protocol {
        Protocol::ICMP => checksum(message) == 0,
        Protocol::TCP => {
            match pseudo_header_checksum(
                packet.src_ip,
                packet.dst_ip,
                crate::packet::IPPROTO_TCP,
                message,
            ) {
                Ok(c) => c == 0,
                Err(_) => false,
            }
        },
        Protocol::UDP => {
            if packet.checksum == 0 {
                true
            } else {
                match pseudo_header_checksum(
                    packet.src_ip,
                    packet.dst_ip,
                    crate::packet::IPPROTO_UDP,
                    message,
                ) {
                    Ok(c) => c == 0,
                    Err(_) => false,
                }
            }
        },
        Protocol::OTHER => true,
    }
}

/// Where the payload of the packet in `s` starts: behind the eight bytes of
/// an ICMP or UDP header, behind a TCP header of the length it states, and
/// behind the IPv4 header for any other protocol.
pub open spec fn payload_offset(s: Seq<u8>) -> int {
    let h = header_len(s);
    match protocol_of(s) {
        Protocol::ICMP => h + 8,
        Protocol::TCP => h + (s[h + 12] / 16) * 4,
        Protocol::UDP => h + 8,
        Protocol::OTHER => h,
    }
}

/// The payload of the packet in `s`: what follows the headers, up to the
/// packet's total length.
pub open spec fn payload_of(s: Seq<u8>) -> Seq<u8> {
    s.subrange(payload_offset(s), total_len(s))
}

/// The payload that a valid packet carries; nothing for a packet that is not
/// valid.
pub fn payload(packet: &Packet) -> (bytes: Option<&[u8]>)
    ensures
        packet.is_valid() ==> bytes is Some && bytes->0@ == payload_of(packet.wire()),
        !packet.is_valid() ==> bytes is None,
{
    if !packet_validate(packet) {
        return None;
    }
    let wire = slice_subrange(packet.data.as_slice(), 0, packet.length);
    let h: usize = ((wire[0] % 16) as usize) * 4;
    let start: usize = match packet.protocol {
        Protocol::ICMP => h + 8,
        Protocol::TCP => h + ((wire[h + 12] / 16) as usize) * 4,
        Protocol::UDP => h + 8,
        Protocol::OTHER => h,
    };
    Some(slice_subrange(wire, start, packet.length))
}

/// The identifier of an ICMP echo message in `s`.
pub open spec fn echo_identifier_of(s: Seq<u8>) -> u16 {
    read_be16(s, header_len(s) + 4)
}

/// The sequence number of an ICMP echo message in `s`.
pub open spec fn echo_sequence_of(s: Seq<u8>) -> u16 {
    read_be16(s, header_len(s) + 6)
}

/// The type of the ICMP message in `s`.
pub open spec fn message_type_of(s: Seq<u8>) -> u8 {
    s[header_len(s)]
}

/// The type of the ICMP message that a valid ICMP packet carries, 8 for an
/// echo request and 0 for an echo reply; nothing for any other packet.
pub fn message_type(packet: &Packet) -> (r: Option<u8>)
    ensures
        r == if packet.is_valid() && packet.protocol == Protocol::ICMP {
            Some(message_type_of(packet.wire()))
        } else {
            None
        },
{
    if !packet_validate(packet) {
        return None;
    }
    match packet.protocol {
        Protocol::ICMP => {
            let wire = slice_subrange(packet.data.as_slice(), 0, packet.length);
            let h: usize = ((wire[0] % 16) as usize) * 4;
            Some(wire[h])
        },
        _ => None,
    }
}

/// The identifier of the echo message that a valid ICMP packet carries;
/// nothing for any other packet.
pub fn echo_identifier(packet: &Packet) -> (r: Option<u16>)
    ensures
        r == if packet.is_valid() && packet.protocol == Protocol::ICMP {
            Some(echo_identifier_of(packet.wire()))
        } else {
            None
        },
{
    if !packet_validate(packet) {
        return None;
    }
    match packet.protocol {
        Protocol::ICMP => {
            let wire = slice_subrange(packet.data.as_slice(), 0, packet.length);
            let h: usize = ((wire[0] % 16) as usize) * 4;
            Some(get_u16(wire, h + 4))
        },
        _ => None,
    }
}

/// The sequence number of the echo message that a valid ICMP packet carries;
/// nothing for any other packet.
pub fn echo_sequence(packet: &Packet) -> (r: Option<u16>)
    ensures
        r == if packet.is_valid() && packet.protocol == Protocol::ICMP {
            Some(echo_sequence_of(packet.wire()))
        } else {
            None
        },
{
    if !packet_validate(packet) {
        return None;
    }
    match packet.protocol {
        Protocol::ICMP => {
            let wire = slice_subrange(packet.data.as_slice(), 0, packet.length);
            let h: usize = ((wire[0] % 16) as usize) * 4;
            Some(get_u16(wire, h + 6))
        },
        _ => None,
    }
}

} // verus!
