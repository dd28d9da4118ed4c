//! What crafting and decoding have to do with each other: every crafted
//! packet decodes to the fields it was crafted from, and its checksums hold.

use crate::builder::{
    echo_request_blank, echo_request_message, echo_request_packet, ipv4_header, ipv4_header_blank,
    tcp_syn_blank, tcp_syn_packet, tcp_syn_segment, udp_blank, udp_checksum_field, udp_datagram,
    udp_packet,
};
use crate::bytes::{be16, be32, overlay, read_be16, read_be32};
use crate::checksum::{
    internet_checksum, lemma_filled_field_verifies, pseudo_header, transport_checksum,
};
use crate::packet::{Protocol, IPPROTO_ICMP, IPPROTO_TCP, IPPROTO_UDP, MAX_UDP_PAYLOAD};
use crate::parser::{
    checksums_hold, echo_identifier_of, echo_sequence_of, fields_of, framed, header_len,
    message_type_of, payload_of, protocol_of, total_len, Decoded,
};
use crate::correlation::{probe_key_of, ProbeKey};
use vstd::prelude::*;

verus! {

/// The bytes of a 16-bit value read back give the value.
pub proof fn lemma_be16_value(v: u16)
    ensures
        be16(v).len() == 2,
        be16(v)[0] as int * 256 + be16(v)[1] as int == v,
{
}

/// The bytes of a 32-bit value read back give the value.
pub proof fn lemma_be32_value(v: u32)
    ensures
        be32(v).len() == 4,
        be32(v)[0] as int * 0x100_0000 + be32(v)[1] as int * 0x1_0000 + be32(v)[2] as int * 256
            + be32(v)[3] as int == v,
{
}

/// A crafted IPv4 header states what it was made from, and its checksum holds.
pub proof fn lemma_ipv4_header(total: u16, protocol: u8, src_ip: u32, dst_ip: u32)
    ensures
        ipv4_header(total, protocol, src_ip, dst_ip).len() == 20,
        ipv4_header(total, protocol, src_ip, dst_ip)[0] == 0x45,
        read_be16(ipv4_header(total, protocol, src_ip, dst_ip), 2) == total,
        ipv4_header(total, protocol, src_ip, dst_ip)[9] == protocol,
        read_be32(ipv4_header(total, protocol, src_ip, dst_ip), 12) == src_ip,
        read_be32(ipv4_header(total, protocol, src_ip, dst_ip), 16) == dst_ip,
        internet_checksum(ipv4_header(total, protocol, src_ip, dst_ip)) == 0,
{
    let blank = ipv4_header_blank(total, protocol, src_ip, dst_ip);
    let h = ipv4_header(total, protocol, src_ip, dst_ip);
    lemma_be16_value(total);
    lemma_be32_value(src_ip);
    lemma_be32_value(dst_ip);
    assert(blank.len() == 20);
    assert(blank[2] == be16(total)[0] && blank[3] == be16(total)[1]);
    assert(blank[12] == be32(src_ip)[0] && blank[13] == be32(src_ip)[1] && blank[14] == be32(
        src_ip,
    )[2] && blank[15] == be32(src_ip)[3]);
    assert(blank[16] == be32(dst_ip)[0] && blank[17] == be32(dst_ip)[1] && blank[18] == be32(
        dst_ip,
    )[2] && blank[19] == be32(dst_ip)[3]);
    assert(h[2] == blank[2] && h[3] == blank[3]);
    assert(h[12] == blank[12] && h[13] == blank[13] && h[14] == blank[14] && h[15] == blank[15]);
    assert(h[16] == blank[16] && h[17] == blank[17] && h[18] == blank[18] && h[19] == blank[19]);
    assert(blank[10] == 0 && blank[11] == 0);
    lemma_filled_field_verifies(blank, 10, internet_checksum(blank));
}

/// An echo request decodes to what it was crafted from: an ICMP packet of 28
/// bytes to `dst_ip`, of type 8, with the identifier and the sequence number
/// given; and its checksums hold.
pub proof fn lemma_echo_request_decodes(dst_ip: u32, id: u16, seq: u16)
    ensures
        framed(echo_request_packet(dst_ip, id, seq)),
        fields_of(echo_request_packet(dst_ip, id, seq)) == (Decoded {
            protocol: Protocol::ICMP,
            length: 28,
            src_ip: 0,
            dst_ip,
            src_port: 0,
            dst_port: 0,
            checksum: internet_checksum(echo_request_blank(id, seq)),
        }),
        message_type_of(echo_request_packet(dst_ip, id, seq)) == 8,
        echo_identifier_of(echo_request_packet(dst_ip, id, seq)) == id,
        echo_sequence_of(echo_request_packet(dst_ip, id, seq)) == seq,
        payload_of(echo_request_packet(dst_ip, id, seq)) == Seq::<u8>::empty(),
        checksums_hold(echo_request_packet(dst_ip, id, seq)),
{
    let h = ipv4_header(28, IPPROTO_ICMP, 0, dst_ip);
    let blank = echo_request_blank(id, seq);
    let m = echo_request_message(id, seq);
    let s = echo_request_packet(dst_ip, id, seq);
    let c = internet_checksum(blank);
    lemma_ipv4_header(28, IPPROTO_ICMP, 0, dst_ip);
    lemma_be16_value(id);
    lemma_be16_value(seq);
    lemma_be16_value(c);
    assert(s.len() == 28);
    assert(s[0] == h[0] && s[2] == h[2] && s[3] == h[3] && s[9] == h[9]);
    assert(s[12] == h[12] && s[13] == h[13] && s[14] == h[14] && s[15] == h[15]);
    assert(s[16] == h[16] && s[17] == h[17] && s[18] == h[18] && s[19] == h[19]);
    assert(header_len(s) == 20);
    assert(total_len(s) == 28);
    assert(protocol_of(s) == Protocol::ICMP);
    assert(s[20] == m[0] && m[0] == 8);
    assert(s[22] == m[2] && m[2] == be16(c)[0]);
    assert(s[23] == m[3] && m[3] == be16(c)[1]);
    assert(s[24] == m[4] && m[4] == be16(id)[0]);
    assert(s[25] == m[5] && m[5] == be16(id)[1]);
    assert(s[26] == m[6] && m[6] == be16(seq)[0]);
    assert(s[27] == m[7] && m[7] == be16(seq)[1]);
    assert(s.subrange(0, 20) =~= h);
    assert(s.subrange(20, 28) =~= m);
    assert(payload_of(s) =~= Seq::<u8>::empty());
    assert(blank[2] == 0 && blank[3] == 0);
    lemma_filled_field_verifies(blank, 2, c);
}

/// A segment under its pseudo-header, with the checksum field filled in,
/// verifies.
proof fn lemma_transport_field_verifies(
    src_ip: u32,
    dst_ip: u32,
    protocol: u8,
    blank: Seq<u8>,
    offset: int,
    v: u16,
)
    requires
        0 <= offset,
        offset % 2 == 0,
        offset + 2 <= blank.len(),
        blank[offset] == 0,
        blank[offset + 1] == 0,
        v == transport_checksum(src_ip, dst_ip, protocol, blank) || (transport_checksum(
            src_ip,
            dst_ip,
            protocol,
            blank,
        ) == 0 && v == 0xFFFF),
    ensures
        transport_checksum(src_ip, dst_ip, protocol, overlay(blank, offset, be16(v))) == 0,
{
    let p = pseudo_header(src_ip, dst_ip, protocol, blank.len() as u16);
    assert(p.len() == 12);
    let whole = p + blank;
    assert(whole[12 + offset] == blank[offset]);
    assert(whole[12 + offset + 1] == blank[offset + 1]);
    lemma_filled_field_verifies(whole, 12 + offset, v);
    assert(overlay(whole, 12 + offset, be16(v)) =~= p + overlay(blank, offset, be16(v)));
}

/// A TCP SYN decodes to what it was crafted from: a TCP packet of 40 bytes
/// with both addresses and both ports as given; and its checksums hold.
pub proof fn lemma_tcp_syn_decodes(
    src_ip: u32,
    dst_ip: u32,
    src_port: u16,
    dst_port: u16,
    sequence: u32,
)
    ensures
        framed(tcp_syn_packet(src_ip, dst_ip, src_port, dst_port, sequence)),
        fields_of(tcp_syn_packet(src_ip, dst_ip, src_port, dst_port, sequence)) == (Decoded {
            protocol: Protocol::TCP,
            length: 40,
            src_ip,
            dst_ip,
            src_port,
            dst_port,
            checksum: transport_checksum(
                src_ip,
                dst_ip,
                IPPROTO_TCP,
                tcp_syn_blank(src_port, dst_port, sequence),
            ),
        }),
        payload_of(tcp_syn_packet(src_ip, dst_ip, src_port, dst_port, sequence)) == Seq::<
            u8,
        >::empty(),
        checksums_hold(tcp_syn_packet(src_ip, dst_ip, src_port, dst_port, sequence)),
{
    let h = ipv4_header(40, IPPROTO_TCP, src_ip, dst_ip);
    let blank = tcp_syn_blank(src_port, dst_port, sequence);
    let m = tcp_syn_segment(src_ip, dst_ip, src_port, dst_port, sequence);
    let s = tcp_syn_packet(src_ip, dst_ip, src_port, dst_port, sequence);
    let c = transport_checksum(src_ip, dst_ip, IPPROTO_TCP, blank);
    lemma_ipv4_header(40, IPPROTO_TCP, src_ip, dst_ip);
    lemma_be16_value(src_port);
    lemma_be16_value(dst_port);
    lemma_be16_value(c);
    assert(blank.len() == 20);
    assert(s.len() == 40);
    assert(s[0] == h[0] && s[2] == h[2] && s[3] == h[3] && s[9] == h[9]);
    assert(s[12] == h[12] && s[13] == h[13] && s[14] == h[14] && s[15] == h[15]);
    assert(s[16] == h[16] && s[17] == h[17] && s[18] == h[18] && s[19] == h[19]);
    assert(header_len(s) == 20);
    assert(total_len(s) == 40);
    assert(protocol_of(s) == Protocol::TCP);
    assert(s[20] == m[0] && m[0] == be16(src_port)[0]);
    assert(s[21] == m[1] && m[1] == be16(src_port)[1]);
    assert(s[22] == m[2] && m[2] == be16(dst_port)[0]);
    assert(s[23] == m[3] && m[3] == be16(dst_port)[1]);
    assert(s[32] == m[12] && m[12] == 0x50);
    assert(s[36] == m[16] && m[16] == be16(c)[0]);
    assert(s[37] == m[17] && m[17] == be16(c)[1]);
    assert(s.subrange(0, 20) =~= h);
    assert(s.subrange(20, 40) =~= m);
    assert(payload_of(s) =~= Seq::<u8>::empty());
    assert(blank[16] == 0 && blank[17] == 0);
    lemma_transport_field_verifies(src_ip, dst_ip, IPPROTO_TCP, blank, 16, c);
    assert(m.len() == blank.len());
}

/// A UDP datagram decodes to what it was crafted from: a UDP packet of 28
/// bytes and the payload's, with both addresses and both ports as given; and
/// its checksums hold.
pub proof fn lemma_udp_decodes(
    src_ip: u32,
    dst_ip: u32,
    src_port: u16,
    dst_port: u16,
    payload: Seq<u8>,
)
    requires
        payload.len() <= MAX_UDP_PAYLOAD,
    ensures
        udp_packet(src_ip, dst_ip, src_port, dst_port, payload).len() == 28 + payload.len(),
        framed(udp_packet(src_ip, dst_ip, src_port, dst_port, payload)),
        fields_of(udp_packet(src_ip, dst_ip, src_port, dst_port, payload)) == (Decoded {
            protocol: Protocol::UDP,
            length: (28 + payload.len()) as usize,
            src_ip,
            dst_ip,
            src_port,
            dst_port,
            checksum: udp_checksum_field(src_ip, dst_ip, src_port, dst_port, payload),
        }),
        payload_of(udp_packet(src_ip, dst_ip, src_port, dst_port, payload)) == payload,
        checksums_hold(udp_packet(src_ip, dst_ip, src_port, dst_port, payload)),
{
    let n = payload.len() as int;
    let total = (28 + n) as u16;
    let h = ipv4_header(total, IPPROTO_UDP, src_ip, dst_ip);
    let blank = udp_blank(src_port, dst_port, payload);
    let m = udp_datagram(src_ip, dst_ip, src_port, dst_port, payload);
    let s = udp_packet(src_ip, dst_ip, src_port, dst_port, payload);
    let f = udp_checksum_field(src_ip, dst_ip, src_port, dst_port, payload);
    let udp_len = (8 + n) as u16;
    lemma_ipv4_header(total, IPPROTO_UDP, src_ip, dst_ip);
    lemma_be16_value(src_port);
    lemma_be16_value(dst_port);
    lemma_be16_value(udp_len);
    lemma_be16_value(f);
    assert(blank.len() == 8 + n);
    assert(m.len() == 8 + n);
    assert(s.len() == 28 + n);
    assert(s[0] == h[0] && s[2] == h[2] && s[3] == h[3] && s[9] == h[9]);
    assert(s[12] == h[12] && s[13] == h[13] && s[14] == h[14] && s[15] == h[15]);
    assert(s[16] == h[16] && s[17] == h[17] && s[18] == h[18] && s[19] == h[19]);
    assert(header_len(s) == 20);
    assert(total_len(s) == 28 + n);
    assert(protocol_of(s) == Protocol::UDP);
    assert(s[20] == m[0] && m[0] == be16(src_port)[0]);
    assert(s[21] == m[1] && m[1] == be16(src_port)[1]);
    assert(s[22] == m[2] && m[2] == be16(dst_port)[0]);
    assert(s[23] == m[3] && m[3] == be16(dst_port)[1]);
    assert(s[24] == m[4] && m[4] == be16(udp_len)[0]);
    assert(s[25] == m[5] && m[5] == be16(udp_len)[1]);
    assert(s[26] == m[6] && m[6] == be16(f)[0]);
    assert(s[27] == m[7] && m[7] == be16(f)[1]);
    assert(s.subrange(0, 20) =~= h);
    assert(s.subrange(20, 28 + n) =~= m);
    assert(payload_of(s) =~= payload);
    assert(blank[6] == 0 && blank[7] == 0);
    lemma_transport_field_verifies(src_ip, dst_ip, IPPROTO_UDP, blank, 6, f);
}

/// Every crafted packet waits for its reply under the key of what it was
/// crafted from: an echo request under the destination, its identifier and
/// its sequence number, a TCP SYN and a UDP datagram under the destination
/// and both ports.
pub proof fn lemma_crafted_packets_have_keys(
    src_ip: u32,
    dst_ip: u32,
    id: u16,
    seq: u16,
    src_port: u16,
    dst_port: u16,
    sequence: u32,
    payload: Seq<u8>,
)
    requires
        payload.len() <= MAX_UDP_PAYLOAD,
    ensures
        probe_key_of(echo_request_packet(dst_ip, id, seq)) == Some(
            ProbeKey { protocol: Protocol::ICMP, remote_ip: dst_ip, local_id: id, remote_id: seq },
        ),
        probe_key_of(tcp_syn_packet(src_ip, dst_ip, src_port, dst_port, sequence)) == Some(
            ProbeKey {
                protocol: Protocol::TCP,
                remote_ip: dst_ip,
                local_id: src_port,
                remote_id: dst_port,
            },
        ),
        probe_key_of(udp_packet(src_ip, dst_ip, src_port, dst_port, payload)) == Some(
            ProbeKey {
                protocol: Protocol::UDP,
                remote_ip: dst_ip,
                local_id: src_port,
                remote_id: dst_port,
            },
        ),
{
    lemma_echo_request_decodes(dst_ip, id, seq);
    lemma_tcp_syn_decodes(src_ip, dst_ip, src_port, dst_port, sequence);
    lemma_udp_decodes(src_ip, dst_ip, src_port, dst_port, payload);
}

} // verus!
