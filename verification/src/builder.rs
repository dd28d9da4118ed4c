//! Encoding of ICMP echo requests, TCP SYN segments and UDP datagrams.
//!
//! Every crafted packet is a whole IPv4 packet: a 20-byte header without
//! options, then the transport message, each with its checksum in place.

use crate::bytes::{be16, be32, copy_bytes, overlay, put_u16, put_u32};
use crate::checksum::{
    checksum, internet_checksum, pseudo_header_checksum, transport_checksum,
};
use crate::error::ErrorCode;
use crate::packet::{
    Packet, Protocol, DEFAULT_TTL, ICMP_HEADER_SIZE, IPPROTO_ICMP, IPPROTO_TCP, IPPROTO_UDP,
    IPV4_HEADER_SIZE, MAX_UDP_PAYLOAD, SYN_WINDOW, TCP_HEADER_SIZE, UDP_HEADER_SIZE,
};
use crate::parser::checksums_hold;
use crate::roundtrip::{lemma_echo_request_decodes, lemma_tcp_syn_decodes, lemma_udp_decodes};
use vstd::prelude::*;
use vstd::slice::slice_subrange;

verus! {

/// The sequence number of a SYN crafted without one of the caller's.
pub const DEFAULT_INITIAL_SEQUENCE: u32 = 0;

/// An IPv4 header before its checksum is filled in: version 4, five words,
/// no fragmentation allowed, the default time to live.
pub open spec fn ipv4_header_blank(total_len: u16, protocol: u8, src_ip: u32, dst_ip: u32) -> Seq<
    u8,
> {
    seq![0x45u8, 0u8] + be16(total_len) + seq![0u8, 0u8, 0x40u8, 0u8, DEFAULT_TTL, protocol, 0u8, 0u8]
        + be32(src_ip) + be32(dst_ip)
}

/// The IPv4 header of a crafted packet.
pub open spec fn ipv4_header(total_len: u16, protocol: u8, src_ip: u32, dst_ip: u32) -> Seq<u8> {
    let blank = ipv4_header_blank(total_len, protocol, src_ip, dst_ip);
    overlay(blank, 10, be16(internet_checksum(blank)))
}

/// An ICMP echo request before its checksum is filled in: type 8, code 0.
pub open spec fn echo_request_blank(id: u16, seq: u16) -> Seq<u8> {
    seq![8u8, 0u8, 0u8, 0u8] + be16(id) + be16(seq)
}

/// An ICMP echo request, its checksum taken over the whole message.
pub open spec fn echo_request_message(id: u16, seq: u16) -> Seq<u8> {
    let blank = echo_request_blank(id, seq);
    overlay(blank, 2, be16(internet_checksum(blank)))
}

/// The whole packet of an ICMP echo request. The source address is left zero
/// for the sending host to fill in.
pub open spec fn echo_request_packet(dst_ip: u32, id: u16, seq: u16) -> Seq<u8> {
    ipv4_header(28, IPPROTO_ICMP, 0, dst_ip) + echo_request_message(id, seq)
}

/// A TCP SYN header before its checksum is filled in: no acknowledgment, five
/// words, only the SYN flag, no urgent data.
pub open spec fn tcp_syn_blank(src_port: u16, dst_port: u16, sequence: u32) -> Seq<u8> {
    be16(src_port) + be16(dst_port) + be32(sequence) + be32(0) + seq![0x50u8, 0x02u8] + be16(
        SYN_WINDOW,
    ) + seq![0u8, 0u8, 0u8, 0u8]
}

/// A TCP SYN segment, its checksum taken under the pseudo-header.
pub open spec fn tcp_syn_segment(
    src_ip: u32,
    dst_ip: u32,
    src_port: u16,
    dst_port: u16,
    sequence: u32,
) -> Seq<u8> {
    let blank = tcp_syn_blank(src_port, dst_port, sequence);
    overlay(blank, 16, be16(transport_checksum(src_ip, dst_ip, IPPROTO_TCP, blank)))
}

/// The whole packet of a TCP SYN.
pub open spec fn tcp_syn_packet(
    src_ip: u32,
    dst_ip: u32,
    src_port: u16,
    dst_port: u16,
    sequence: u32,
) -> Seq<u8> {
    ipv4_header(40, IPPROTO_TCP, src_ip, dst_ip) + tcp_syn_segment(
        src_ip,
        dst_ip,
        src_port,
        dst_port,
        sequence,
    )
}

/// A UDP datagram before its checksum is filled in.
pub open spec fn udp_blank(src_port: u16, dst_port: u16, payload: Seq<u8>) -> Seq<u8> {
    be16(src_port) + be16(dst_port) + be16((8 + payload.len()) as u16) + seq![0u8, 0u8] + payload
}

/// The checksum that a UDP datagram carries: the one computed under the
/// pseudo-header, with all ones in place of a computed zero, since a zero
/// field means that no checksum was computed.
pub open spec fn udp_checksum_field(
    src_ip: u32,
    dst_ip: u32,
    src_port: u16,
    dst_port: u16,
    payload: Seq<u8>,
) -> u16 {
    let c = transport_checksum(src_ip, dst_ip, IPPROTO_UDP, udp_blank(src_port, dst_port, payload));
    if c == 0 {
        0xFFFF
    } else {
        c
    }
}

/// A UDP datagram with its checksum in place.
pub open spec fn udp_datagram(
    src_ip: u32,
    dst_ip: u32,
    src_port: u16,
    dst_port: u16,
    payload: Seq<u8>,
) -> Seq<u8> {
    overlay(
        udp_blank(src_port, dst_port, payload),
        6,
        be16(udp_checksum_field(src_ip, dst_ip, src_port, dst_port, payload)),
    )
}

/// The whole packet of a UDP datagram.
pub open spec fn udp_packet(
    src_ip: u32,
    dst_ip: u32,
    src_port: u16,
    dst_port: u16,
    payload: Seq<u8>,
) -> Seq<u8> {
    ipv4_header((28 + payload.len()) as u16, IPPROTO_UDP, src_ip, dst_ip) + udp_datagram(
        src_ip,
        dst_ip,
        src_port,
        dst_port,
        payload,
    )
}

/// Writes the IPv4 header of a crafted packet over the first twenty bytes.
fn write_ipv4_header(data: &mut Vec<u8>, total_len: u16, protocol: u8, src_ip: u32, dst_ip: u32)
    requires
        old(data)@.len() >= 20,
    ensures
        final(data)@ == overlay(old(data)@, 0, ipv4_header(total_len, protocol, src_ip, dst_ip)),
{
    let ghost blank = ipv4_header_blank(total_len, protocol, src_ip, dst_ip);
    data[0] = 0x45;
    data[1] = 0;
    put_u16(data, 2, total_len);
    data[4] = 0;
    data[5] = 0;
    data[6] = 0x40;
    data[7] = 0;
    data[8] = DEFAULT_TTL;
    data[9] = protocol;
    data[10] = 0;
    data[11] = 0;
    put_u32(data, 12, src_ip);
    put_u32(data, 16, dst_ip);
    assert(data@ =~= overlay(old(data)@, 0, blank));
    let sum = checksum(slice_subrange(data.as_slice(), 0, IPV4_HEADER_SIZE));
    assert(data@.subrange(0, 20) =~= blank);
    put_u16(data, 10, sum);
    assert(data@ =~= overlay(old(data)@, 0, ipv4_header(total_len, protocol, src_ip, dst_ip)));
}

/// Writes an ICMP echo request over the eight bytes from `offset` on.
fn write_echo_request(data: &mut Vec<u8>, offset: usize, id: u16, seq: u16) -> (sum: u16)
    requires
        offset + 8 <= old(data)@.len(),
    ensures
        final(data)@ == overlay(old(data)@, offset as int, echo_request_message(id, seq)),
        sum == internet_checksum(echo_request_blank(id, seq)),
{
    let ghost blank = echo_request_blank(id, seq);
    let len = data.len();
    data[offset] = 8;
    data[offset + 1] = 0;
    data[offset + 2] = 0;
    data[offset + 3] = 0;
    put_u16(data, offset + 4, id);
    put_u16(data, offset + 6, seq);
    assert(data@ =~= overlay(old(data)@, offset as int, blank));
    let sum = checksum(slice_subrange(data.as_slice(), offset, offset + ICMP_HEADER_SIZE));
    assert(data@.subrange(offset as int, offset + 8) =~= blank);
    put_u16(data, offset + 2, sum);
    assert(data@ =~= overlay(old(data)@, offset as int, echo_request_message(id, seq)));
    sum
}

/// Writes a TCP SYN segment over the twenty bytes from `offset` on.
fn write_tcp_syn(
    data: &mut Vec<u8>,
    offset: usize,
    src_ip: u32,
    dst_ip: u32,
    src_port: u16,
    dst_port: u16,
    sequence: u32,
) -> (sum: u16)
    requires
        offset + 20 <= old(data)@.len(),
    ensures
        final(data)@ == overlay(
            old(data)@,
            offset as int,
            tcp_syn_segment(src_ip, dst_ip, src_port, dst_port, sequence),
        ),
        sum == transport_checksum(
            src_ip,
            dst_ip,
            IPPROTO_TCP,
            tcp_syn_blank(src_port, dst_port, sequence),
        ),
{
    let ghost blank = tcp_syn_blank(src_port, dst_port, sequence);
    let len = data.len();
    put_u16(data, offset, src_port);
    put_u16(data, offset + 2, dst_port);
    put_u32(data, offset + 4, sequence);
    put_u32(data, offset + 8, 0);
    data[offset + 12] = 0x50;
    data[offset + 13] = 0x02;
    put_u16(data, offset + 14, SYN_WINDOW);
    put_u32(data, offset + 16, 0);
    assert(data@ =~= overlay(old(data)@, offset as int, blank));
    assert(data@.subrange(offset as int, offset + 20) =~= blank);
    let sum = match pseudo_header_checksum(
        src_ip,
        dst_ip,
        IPPROTO_TCP,
        slice_subrange(data.as_slice(), offset, offset + TCP_HEADER_SIZE),
    ) {
        Ok(c) => c,
        Err(_) => 0,
    };
    put_u16(data, offset + 16, sum);
    assert(data@ =~= overlay(
        old(data)@,
        offset as int,
        tcp_syn_segment(src_ip, dst_ip, src_port, dst_port, sequence),
    ));
    sum
}

/// Writes a UDP datagram over the bytes from `offset` on.
fn write_udp(
    data: &mut Vec<u8>,
    offset: usize,
    src_ip: u32,
    dst_ip: u32,
    src_port: u16,
    dst_port: u16,
    payload: &[u8],
) -> (field: u16)
    requires
        payload@.len() <= MAX_UDP_PAYLOAD,
        offset + 8 + payload@.len() <= old(data)@.len(),
    ensures
        final(data)@ == overlay(
            old(data)@,
            offset as int,
            udp_datagram(src_ip, dst_ip, src_port, dst_port, payload@),
        ),
        field == udp_checksum_field(src_ip, dst_ip, src_port, dst_port, payload@),
{
    let ghost blank = udp_blank(src_port, dst_port, payload@);
    let len = data.len();
    let n = payload.len();
    let udp_len: u16 = (UDP_HEADER_SIZE + n) as u16;
    put_u16(data, offset, src_port);
    put_u16(data, offset + 2, dst_port);
    put_u16(data, offset + 4, udp_len);
    data[offset + 6] = 0;
    data[offset + 7] = 0;
    copy_bytes(data, offset + 8, payload);
    assert(data@ =~= overlay(old(data)@, offset as int, blank));
    assert(data@.subrange(offset as int, offset + 8 + n) =~= blank);
    let sum = match pseudo_header_checksum(
        src_ip,
        dst_ip,
        IPPROTO_UDP,
        slice_subrange(data.as_slice(), offset, offset + UDP_HEADER_SIZE + n),
    ) {
        Ok(c) => c,
        Err(_) => 0,
    };
    let field: u16 = if sum == 0 {
        0xFFFF
    } else {
        sum
    };
    put_u16(data, offset + 6, field);
    assert(data@ =~= overlay(
        old(data)@,
        offset as int,
        udp_datagram(src_ip, dst_ip, src_port, dst_port, payload@),
    ));
    field
}

/// What a successful craft leaves in the packet: the given header fields, the
/// length of `wire`, and `wire` over the front of the buffer, whose other
/// bytes and whose capacity stay as they were.
pub open spec fn crafted(
    before: Packet,
    after: Packet,
    protocol: Protocol,
    src_ip: u32,
    dst_ip: u32,
    src_port: u16,
    dst_port: u16,
    checksum: u16,
    wire: Seq<u8>,
) -> bool {
    &&& after.protocol == protocol
    &&& after.length == wire.len()
    &&& after.src_ip == src_ip
    &&& after.dst_ip == dst_ip
    &&& after.src_port == src_port
    &&& after.dst_port == dst_port
    &&& after.checksum == checksum
    &&& after.data@ == overlay(before.data@, 0, wire)
}

/// Crafts an ICMP echo request to `dst_ip` with the given identifier and
/// sequence number.
///
/// Fails with `InvalidParameter`, leaving the packet as it was, exactly when
/// the backing buffer holds fewer than the 28 bytes of the packet.
pub fn craft_icmp_echo(packet: &mut Packet, dst_ip: u32, id: u16, seq: u16) -> (result: ErrorCode)
    ensures
        old(packet).data@.len() < 28 ==> result == ErrorCode::InvalidParameter && *final(packet)
            == *old(packet),
        old(packet).data@.len() >= 28 ==> result == ErrorCode::Success && crafted(
            *old(packet),
            *final(packet),
            Protocol::ICMP,
            0,
            dst_ip,
            0,
            0,
            internet_checksum(echo_request_blank(id, seq)),
            echo_request_packet(dst_ip, id, seq),
        ),
        result == ErrorCode::Success ==> final(packet).length == 28 && final(packet).is_valid()
            && checksums_hold(final(packet).wire()),
{
    if packet.data.len() < IPV4_HEADER_SIZE + ICMP_HEADER_SIZE {
        return ErrorCode::InvalidParameter;
    }
    write_ipv4_header(&mut packet.data, 28, IPPROTO_ICMP, 0, dst_ip);
    let sum = write_echo_request(&mut packet.data, IPV4_HEADER_SIZE, id, seq);
    packet.protocol = Protocol::ICMP;
    packet.length = IPV4_HEADER_SIZE + ICMP_HEADER_SIZE;
    packet.src_ip = 0;
    packet.dst_ip = dst_ip;
    packet.src_port = 0;
    packet.dst_port = 0;
    packet.checksum = sum;
    assert(packet.data@ =~= overlay(old(packet).data@, 0, echo_request_packet(dst_ip, id, seq)));
    proof {
        lemma_echo_request_decodes(dst_ip, id, seq);
        assert(packet.wire() =~= echo_request_packet(dst_ip, id, seq));
    }
    ErrorCode::Success
}

/// Crafts a TCP SYN with the given initial sequence number.
///
/// Fails with `InvalidParameter`, leaving the packet as it was, exactly when
/// the backing buffer holds fewer than the 40 bytes of the packet.
pub fn craft_tcp_syn_with_sequence(
    packet: &mut Packet,
    src_ip: u32,
    dst_ip: u32,
    src_port: u16,
    dst_port: u16,
    sequence: u32,
) -> (result: ErrorCode)
    ensures
        old(packet).data@.len() < 40 ==> result == ErrorCode::InvalidParameter && *final(packet)
            == *old(packet),
        old(packet).data@.len() >= 40 ==> result == ErrorCode::Success && crafted(
            *old(packet),
            *final(packet),
            Protocol::TCP,
            src_ip,
            dst_ip,
            src_port,
            dst_port,
            transport_checksum(
                src_ip,
                dst_ip,
                IPPROTO_TCP,
                tcp_syn_blank(src_port, dst_port, sequence),
            ),
            tcp_syn_packet(src_ip, dst_ip, src_port, dst_port, sequence),
        ),
        result == ErrorCode::Success ==> final(packet).length == 40 && final(packet).is_valid()
            && checksums_hold(final(packet).wire()),
{
    if packet.data.len() < IPV4_HEADER_SIZE + TCP_HEADER_SIZE {
        return ErrorCode::InvalidParameter;
    }
    write_ipv4_header(&mut packet.data, 40, IPPROTO_TCP, src_ip, dst_ip);
    let sum = write_tcp_syn(
        &mut packet.data,
        IPV4_HEADER_SIZE,
        src_ip,
        dst_ip,
        src_port,
        dst_port,
        sequence,
    );
    packet.protocol = Protocol::TCP;
    packet.length = IPV4_HEADER_SIZE + TCP_HEADER_SIZE;
    packet.src_ip = src_ip;
    packet.dst_ip = dst_ip;
    packet.src_port = src_port;
    packet.dst_port = dst_port;
    packet.checksum = sum;
    assert(packet.data@ =~= overlay(
        old(packet).data@,
        0,
        tcp_syn_packet(src_ip, dst_ip, src_port, dst_port, sequence),
    ));
    proof {
        lemma_tcp_syn_decodes(src_ip, dst_ip, src_port, dst_port, sequence);
        assert(packet.wire() =~= tcp_syn_packet(src_ip, dst_ip, src_port, dst_port, sequence));
    }
    ErrorCode::Success
}

/// Crafts a TCP SYN whose initial sequence number is the engine's own,
/// `DEFAULT_INITIAL_SEQUENCE`.
///
/// Fails with `InvalidParameter`, leaving the packet as it was, exactly when
/// the backing buffer holds fewer than the 40 bytes of the packet.
pub fn craft_tcp_syn(
    packet: &mut Packet,
    src_ip: u32,
    dst_ip: u32,
    src_port: u16,
    dst_port: u16,
) -> (result: ErrorCode)
    ensures
        old(packet).data@.len() < 40 ==> result == ErrorCode::InvalidParameter && *final(packet)
            == *old(packet),
        old(packet).data@.len() >= 40 ==> result == ErrorCode::Success && crafted(
            *old(packet),
            *final(packet),
            Protocol::TCP,
            src_ip,
            dst_ip,
            src_port,
            dst_port,
            transport_checksum(
                src_ip,
                dst_ip,
                IPPROTO_TCP,
                tcp_syn_blank(src_port, dst_port, DEFAULT_INITIAL_SEQUENCE),
            ),
            tcp_syn_packet(src_ip, dst_ip, src_port, dst_port, DEFAULT_INITIAL_SEQUENCE),
        ),
        result == ErrorCode::Success ==> final(packet).length == 40 && final(packet).is_valid()
            && checksums_hold(final(packet).wire()),
{
    craft_tcp_syn_with_sequence(
        packet,
        src_ip,
        dst_ip,
        src_port,
        dst_port,
        DEFAULT_INITIAL_SEQUENCE,
    )
}

/// Crafts a UDP datagram that carries `payload`.
///
/// Fails with `PacketTooLarge` exactly when the payload is longer than
/// `MAX_UDP_PAYLOAD`, and otherwise with `InvalidParameter` exactly when the
/// backing buffer holds fewer than the 28 bytes of the headers and the
/// payload together. A failed craft leaves the packet as it was.
pub fn craft_udp(
    packet: &mut Packet,
    src_ip: u32,
    dst_ip: u32,
    src_port: u16,
    dst_port: u16,
    payload: &[u8],
) -> (result: ErrorCode)
    ensures
        payload@.len() > MAX_UDP_PAYLOAD ==> result == ErrorCode::PacketTooLarge && *final(packet)
            == *old(packet),
        payload@.len() <= MAX_UDP_PAYLOAD && old(packet).data@.len() < 28 + payload@.len()
            ==> result == ErrorCode::InvalidParameter && *final(packet) == *old(packet),
        payload@.len() <= MAX_UDP_PAYLOAD && old(packet).data@.len() >= 28 + payload@.len()
            ==> result == ErrorCode::Success && crafted(
            *old(packet),
            *final(packet),
            Protocol::UDP,
            src_ip,
            dst_ip,
            src_port,
            dst_port,
            udp_checksum_field(src_ip, dst_ip, src_port, dst_port, payload@),
            udp_packet(src_ip, dst_ip, src_port, dst_port, payload@),
        ),
        result == ErrorCode::Success ==> final(packet).length == IPV4_HEADER_SIZE + UDP_HEADER_SIZE
            + payload@.len() && final(packet).is_valid() && checksums_hold(final(packet).wire()),
{
    let n = payload.len();
    if n > MAX_UDP_PAYLOAD {
        return ErrorCode::PacketTooLarge;
    }
    let total = IPV4_HEADER_SIZE + UDP_HEADER_SIZE + n;
    if packet.data.len() < total {
        return ErrorCode::InvalidParameter;
    }
    write_ipv4_header(&mut packet.data, total as u16, IPPROTO_UDP, src_ip, dst_ip);
    let field = write_udp(
        &mut packet.data,
        IPV4_HEADER_SIZE,
        src_ip,
        dst_ip,
        src_port,
        dst_port,
        payload,
    );
    packet.protocol = Protocol::UDP;
    packet.length = total;
    packet.src_ip = src_ip;
    packet.dst_ip = dst_ip;
    packet.src_port = src_port;
    packet.dst_port = dst_port;
    packet.checksum = field;
    assert(packet.data@ =~= overlay(
        old(packet).data@,
        0,
        udp_packet(src_ip, dst_ip, src_port, dst_port, payload@),
    ));
    proof {
        lemma_udp_decodes(src_ip, dst_ip, src_port, dst_port, payload@);
        assert(packet.wire() =~= udp_packet(src_ip, dst_ip, src_port, dst_port, payload@));
    }
    ErrorCode::Success
}

} // verus!
