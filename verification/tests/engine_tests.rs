use netweaver::builder::{craft_icmp_echo, craft_tcp_syn, craft_udp};
use netweaver::checksum::{checksum, pseudo_header_checksum, verify_checksum};
use netweaver::error::ErrorCode;
use netweaver::packet::{Packet, Protocol};
use netweaver::parser::{
    echo_identifier, echo_sequence, message_type, packet_validate, parse, payload,
    verify_packet_checksums,
};
use netweaver::pool::BufferPool;

#[test]
fn test_checksum_calculation() {
    let test_data: [u8; 8] = [0x45, 0x00, 0x00, 0x3c, 0x1c, 0x46, 0x40, 0x00];
    let sum = checksum(&test_data);
    // Checksum should be non-zero for this data
    assert_ne!(sum, 0);
    // 0x4500 + 0x003c + 0x1c46 + 0x4000 = 0xa182; its complement is 0x5e7d
    assert_eq!(sum, 0x5e7d);
}

#[test]
fn test_icmp_packet_crafting() {
    let mut packet = Packet::new();
    let dst_ip: u32 = (8 << 24) | (8 << 16) | (8 << 8) | 8; // 8.8.8.8
    let id: u16 = 1234;
    let seq: u16 = 1;

    let result = craft_icmp_echo(&mut packet, dst_ip, id, seq);
    assert_eq!(result, ErrorCode::Success);
    assert!(packet.length > 0);
    assert_eq!(packet.protocol, Protocol::ICMP);
    assert_eq!(packet.dst_ip, dst_ip);
}

#[test]
fn test_tcp_syn_packet_crafting() {
    let mut packet = Packet::new();
    let src_ip: u32 = (192 << 24) | (168 << 16) | (1 << 8) | 100;
    let dst_ip: u32 = (8 << 24) | (8 << 16) | (8 << 8) | 8;
    let src_port: u16 = 54321;
    let dst_port: u16 = 443;

    let result = craft_tcp_syn(&mut packet, src_ip, dst_ip, src_port, dst_port);
    assert_eq!(result, ErrorCode::Success);
    assert!(packet.length > 0);
    assert_eq!(packet.protocol, Protocol::TCP);
    assert_eq!(packet.src_ip, src_ip);
    assert_eq!(packet.dst_ip, dst_ip);
    assert_eq!(packet.src_port, src_port);
    assert_eq!(packet.dst_port, dst_port);
}

#[test]
fn test_udp_packet_crafting() {
    let mut packet = Packet::new();
    let src_ip: u32 = (192 << 24) | (168 << 16) | (1 << 8) | 100;
    let dst_ip: u32 = (8 << 24) | (8 << 16) | (8 << 8) | 8;
    let src_port: u16 = 54321;
    let dst_port: u16 = 53;
    let payload = b"test payload";

    let result = craft_udp(&mut packet, src_ip, dst_ip, src_port, dst_port, payload);
    assert_eq!(result, ErrorCode::Success);
    assert!(packet.length > 0);
    assert_eq!(packet.protocol, Protocol::UDP);
}

#[test]
fn test_buffer_pool() {
    let mut pool = BufferPool::new();
    let buffer_size: usize = 1024;
    let pool_size: usize = 10;

    // Initialize buffer pool
    let result = pool.init(buffer_size, pool_size);
    assert_eq!(result, ErrorCode::Success);

    // Acquire buffers
    let buf1 = pool.acquire();
    assert!(buf1.is_some());

    let buf2 = pool.acquire();
    assert!(buf2.is_some());

    // Buffers should be different
    assert_ne!(buf1, buf2);

    // Release buffers
    pool.release(buf1.unwrap());
    pool.release(buf2.unwrap());

    // Should be able to acquire again
    let buf3 = pool.acquire();
    assert!(buf3.is_some());

    pool.release(buf3.unwrap());
    pool.destroy();
}

#[test]
fn test_packet_validation() {
    let mut packet = Packet::new();
    let dst_ip: u32 = (8 << 24) | (8 << 16) | (8 << 8) | 8;

    // Create a valid ICMP packet
    let result = craft_icmp_echo(&mut packet, dst_ip, 1, 1);
    assert_eq!(result, ErrorCode::Success);

    // Validate the packet
    let is_valid = packet_validate(&packet);
    assert!(is_valid);

    // Test with invalid packet (zero length)
    let mut invalid_packet = Packet::new();
    invalid_packet.length = 0;
    let is_valid = packet_validate(&invalid_packet);
    assert!(!is_valid);
}

#[test]
fn icmp_echo_bytes_are_exact() {
    let mut packet = Packet::new();
    let result = craft_icmp_echo(&mut packet, 0x0808_0808, 1234, 1);
    assert_eq!(result, ErrorCode::Success);
    assert_eq!(packet.length, 28);
    assert_eq!(packet.capacity(), 1500);
    assert_eq!(packet.src_ip, 0);
    assert_eq!(packet.src_port, 0);
    assert_eq!(packet.dst_port, 0);
    // type 8, code 0, id 0x04d2, seq 0x0001: 0x0800 + 0x04d2 + 0x0001 = 0x0cd3
    assert_eq!(packet.checksum, 0xf32c);
    let expected: [u8; 28] = [
        0x45, 0x00, 0x00, 0x1c, 0x00, 0x00, 0x40, 0x00, 0x40, 0x01, 0x2a, 0xd2, 0x00, 0x00, 0x00,
        0x00, 0x08, 0x08, 0x08, 0x08, 0x08, 0x00, 0xf3, 0x2c, 0x04, 0xd2, 0x00, 0x01,
    ];
    assert_eq!(packet.bytes(), &expected[..]);
    assert!(packet.data[28..].iter().all(|b| *b == 0));
}

#[test]
fn icmp_echo_parses_back() {
    let mut packet = Packet::new();
    assert_eq!(craft_icmp_echo(&mut packet, 0x0808_0808, 1234, 1), ErrorCode::Success);
    let parsed = parse(packet.bytes()).unwrap();
    assert_eq!(parsed.protocol, Protocol::ICMP);
    assert_eq!(parsed.length, 28);
    assert_eq!(parsed.dst_ip, 0x0808_0808);
    assert_eq!(parsed.src_ip, 0);
    assert_eq!(parsed.checksum, packet.checksum);
    assert_eq!(message_type(&parsed), Some(8));
    assert_eq!(echo_identifier(&parsed), Some(1234));
    assert_eq!(echo_sequence(&parsed), Some(1));
    assert!(verify_packet_checksums(&parsed));
}

#[test]
fn tcp_syn_checksum_matches_independent_computation() {
    let mut packet = Packet::new();
    let src_ip: u32 = 0xc0a8_0164;
    let dst_ip: u32 = 0x0808_0808;
    assert_eq!(craft_tcp_syn(&mut packet, src_ip, dst_ip, 54321, 443), ErrorCode::Success);
    assert_eq!(packet.length, 40);
    let wire = packet.bytes().to_vec();
    // the segment with its checksum field zeroed, under a pseudo-header built by hand
    let mut buffer: Vec<u8> = vec![0xc0, 0xa8, 0x01, 0x64, 0x08, 0x08, 0x08, 0x08, 0x00, 0x06, 0x00, 0x14];
    buffer.extend_from_slice(&wire[20..40]);
    buffer[12 + 16] = 0;
    buffer[12 + 17] = 0;
    let mut sum: u32 = 0;
    for pair in buffer.chunks(2) {
        sum += ((pair[0] as u32) << 8) | (pair[1] as u32);
    }
    while sum >> 16 != 0 {
        sum = (sum & 0xffff) + (sum >> 16);
    }
    let independent = !(sum as u16);
    assert_eq!(packet.checksum, independent);
    assert_eq!(((wire[36] as u16) << 8) | wire[37] as u16, independent);
    // SYN flag only, header of five words, no acknowledgment
    assert_eq!(wire[33], 0x02);
    assert_eq!(wire[32], 0x50);
    assert_eq!(&wire[28..32], &[0, 0, 0, 0]);
    assert_eq!(&wire[20..24], &[0xd4, 0x31, 0x01, 0xbb]);
    assert!(verify_packet_checksums(&packet));
    assert_eq!(pseudo_header_checksum(src_ip, dst_ip, 6, &wire[20..40]), Ok(0));
}

#[test]
fn udp_length_is_headers_plus_payload() {
    for n in [0usize, 1, 12, 13, 512, 1472] {
        let payload = vec![0xabu8; n];
        let mut packet = Packet::new();
        let result = craft_udp(&mut packet, 0x0a00_0001, 0x0a00_0002, 4000, 53, &payload);
        assert_eq!(result, ErrorCode::Success);
        assert_eq!(packet.length, 28 + n);
        assert_eq!(&packet.bytes()[28..], &payload[..]);
        assert!(packet_validate(&packet));
        assert!(verify_packet_checksums(&packet));
        let parsed = parse(packet.bytes()).unwrap();
        assert_eq!(parsed.src_port, 4000);
        assert_eq!(parsed.dst_port, 53);
        assert_eq!(parsed.src_ip, 0x0a00_0001);
        assert_eq!(parsed.dst_ip, 0x0a00_0002);
        assert_eq!(parsed.protocol, Protocol::UDP);
    }
}

#[test]
fn udp_test_payload_bytes() {
    let mut packet = Packet::new();
    let result = craft_udp(&mut packet, 0xc0a8_0164, 0x0808_0808, 54321, 53, b"test payload");
    assert_eq!(result, ErrorCode::Success);
    assert_eq!(packet.length, 40);
    let wire = packet.bytes();
    assert_eq!(&wire[20..26], &[0xd4, 0x31, 0x00, 0x35, 0x00, 0x14]);
    assert_eq!(&wire[28..40], b"test payload");
    assert_eq!(((wire[26] as u16) << 8) | wire[27] as u16, packet.checksum);
    assert_ne!(packet.checksum, 0);
}

#[test]
fn craft_rejects_small_buffers_and_large_payloads() {
    let mut small = Packet::with_capacity(27);
    assert_eq!(craft_icmp_echo(&mut small, 1, 2, 3), ErrorCode::InvalidParameter);
    assert_eq!(small.length, 0);
    assert_eq!(small.protocol, Protocol::OTHER);
    let mut small = Packet::with_capacity(39);
    assert_eq!(craft_tcp_syn(&mut small, 1, 2, 3, 4), ErrorCode::InvalidParameter);
    let mut small = Packet::with_capacity(28);
    assert_eq!(craft_udp(&mut small, 1, 2, 3, 4, b"x"), ErrorCode::InvalidParameter);
    assert_eq!(craft_udp(&mut small, 1, 2, 3, 4, b""), ErrorCode::Success);
    assert_eq!(small.length, 28);

    let mut big = Packet::with_capacity(70000);
    let payload = vec![0u8; 65508];
    assert_eq!(craft_udp(&mut big, 1, 2, 3, 4, &payload), ErrorCode::PacketTooLarge);
    assert_eq!(big.length, 0);
    let payload = vec![7u8; 65507];
    assert_eq!(craft_udp(&mut big, 1, 2, 3, 4, &payload), ErrorCode::Success);
    assert_eq!(big.length, 65535);
    assert!(verify_packet_checksums(&big));
}

#[test]
fn protocols_and_their_sizes() {
    assert_eq!(Protocol::from_number(1), Protocol::ICMP);
    assert_eq!(Protocol::from_number(6), Protocol::TCP);
    assert_eq!(Protocol::from_number(17), Protocol::UDP);
    assert_eq!(Protocol::from_number(0), Protocol::OTHER);
    assert_eq!(Protocol::from_number(255), Protocol::OTHER);
    assert_eq!(Protocol::ICMP.min_size(), 28);
    assert_eq!(Protocol::TCP.min_size(), 40);
    assert_eq!(Protocol::UDP.min_size(), 28);
    assert_eq!(Protocol::OTHER.min_size(), 20);
}

#[test]
fn zero_length_packet_never_validates() {
    let mut packet = Packet::new();
    assert!(!packet_validate(&packet));
    assert_eq!(craft_tcp_syn(&mut packet, 1, 2, 3, 4), ErrorCode::Success);
    assert!(packet_validate(&packet));
    packet.length = 0;
    assert!(!packet_validate(&packet));
    assert!(!verify_packet_checksums(&packet));
}

#[test]
fn validation_is_structural_and_checksums_are_separate() {
    let mut packet = Packet::new();
    assert_eq!(craft_icmp_echo(&mut packet, 0x0101_0101, 7, 9), ErrorCode::Success);
    assert!(packet_validate(&packet));
    assert!(verify_packet_checksums(&packet));
    // corrupt the sequence number: the framing stays sound, the checksum breaks
    packet.data[27] ^= 0xff;
    assert!(packet_validate(&packet));
    assert!(!verify_packet_checksums(&packet));
    // a protocol tag that the bytes do not bear out
    packet.data[27] ^= 0xff;
    packet.protocol = Protocol::TCP;
    assert!(!packet_validate(&packet));
    packet.protocol = Protocol::ICMP;
    // a length that cuts the ICMP header short
    packet.length = 27;
    assert!(!packet_validate(&packet));
    // a length past the buffer
    packet.length = 1501;
    assert!(!packet_validate(&packet));
    assert_eq!(packet.bytes().len(), 0);
}

#[test]
fn parse_rejects_truncated_and_malformed_input() {
    assert_eq!(parse(&[]).unwrap_err(), ErrorCode::PacketParseFailed);
    let mut packet = Packet::new();
    assert_eq!(craft_tcp_syn(&mut packet, 1, 2, 3, 4), ErrorCode::Success);
    let wire = packet.bytes().to_vec();
    assert_eq!(parse(&wire[..39]).unwrap_err(), ErrorCode::PacketParseFailed);
    assert_eq!(parse(&wire[..19]).unwrap_err(), ErrorCode::PacketParseFailed);
    let mut bad = wire.clone();
    bad[0] = 0x65;
    assert_eq!(parse(&bad).unwrap_err(), ErrorCode::PacketParseFailed);
    let mut bad = wire.clone();
    bad[0] = 0x44;
    assert_eq!(parse(&bad).unwrap_err(), ErrorCode::PacketParseFailed);
    let mut bad = wire.clone();
    bad[32] = 0x40;
    assert_eq!(parse(&bad).unwrap_err(), ErrorCode::PacketParseFailed);
    // bytes behind the total length are left out
    let mut padded = wire.clone();
    padded.extend_from_slice(&[0, 0, 0, 0, 0, 0]);
    let parsed = parse(&padded).unwrap();
    assert_eq!(parsed.length, 40);
    assert_eq!(parsed.data.len(), 40);
    assert_eq!(parsed.src_port, 3);
    assert_eq!(parsed.dst_port, 4);
    // an unknown protocol is carried as OTHER
    let mut other = wire.clone();
    other[9] = 47;
    let parsed = parse(&other).unwrap();
    assert_eq!(parsed.protocol, Protocol::OTHER);
    assert_eq!(parsed.src_port, 0);
    assert_eq!(parsed.checksum, 0);
}

#[test]
fn checksum_of_odd_and_empty_spans() {
    assert_eq!(checksum(&[]), 0xffff);
    assert_eq!(checksum(&[0x12]), !0x1200u16);
    assert_eq!(checksum(&[0xff, 0xff]), 0);
    assert_eq!(checksum(&[0xff, 0xff, 0x00, 0x01]), !0x0001u16);
    assert_eq!(checksum(&[0x00, 0x01, 0xf2, 0x03, 0xf4, 0xf5, 0xf6, 0xf7]), 0x220d);
    assert!(verify_checksum(&[0x00, 0x01, 0xf2, 0x03, 0xf4, 0xf5, 0xf6, 0xf7, 0x22, 0x0d]));
    assert!(!verify_checksum(&[0x00, 0x01, 0xf2, 0x03, 0xf4, 0xf5, 0xf6, 0xf7, 0x22, 0x0e]));
}

#[test]
fn checksum_reinserted_verifies() {
    let mut span: Vec<u8> = (0u16..61).map(|i| (i * 37 % 251) as u8).collect();
    for offset in [0usize, 10, 58] {
        span[offset] = 0;
        span[offset + 1] = 0;
        let sum = checksum(&span);
        assert_eq!(sum, checksum(&span.clone()));
        span[offset] = (sum >> 8) as u8;
        span[offset + 1] = (sum & 0xff) as u8;
        assert!(verify_checksum(&span));
    }
}

#[test]
fn pseudo_header_checksum_refuses_long_segments() {
    let long = vec![0u8; 65536];
    assert_eq!(pseudo_header_checksum(1, 2, 17, &long), Err(ErrorCode::PacketTooLarge));
    let fits = vec![0u8; 65535];
    assert!(pseudo_header_checksum(1, 2, 17, &fits).is_ok());
}

#[test]
fn error_codes_keep_their_numbers() {
    let all = [
        ErrorCode::Success,
        ErrorCode::InvalidParameter,
        ErrorCode::PacketTooLarge,
        ErrorCode::PacketParseFailed,
        ErrorCode::AllocationFailure,
        ErrorCode::PermissionDenied,
        ErrorCode::SocketError,
        ErrorCode::Timeout,
    ];
    for (n, code) in all.iter().enumerate() {
        assert_eq!(code.code() as usize, n);
        assert_eq!(ErrorCode::from_code(n as u8), Some(*code));
        assert_eq!(code.is_success(), n == 0);
    }
    assert_eq!(ErrorCode::from_code(8), None);
}

#[test]
fn payloads_follow_the_headers() {
    let mut packet = Packet::new();
    assert_eq!(payload(&packet), None);
    assert_eq!(craft_udp(&mut packet, 1, 2, 3, 4, b"test payload"), ErrorCode::Success);
    assert_eq!(payload(&packet), Some(&b"test payload"[..]));
    assert_eq!(craft_udp(&mut packet, 1, 2, 3, 4, b""), ErrorCode::Success);
    assert_eq!(payload(&packet), Some(&b""[..]));
    assert_eq!(craft_icmp_echo(&mut packet, 1, 2, 3), ErrorCode::Success);
    assert_eq!(payload(&packet), Some(&[][..]));
    assert_eq!(craft_tcp_syn(&mut packet, 1, 2, 3, 4), ErrorCode::Success);
    assert_eq!(payload(&packet), Some(&[][..]));
    // a TCP segment with options and data, an unknown protocol with data
    let mut wire = packet.bytes().to_vec();
    wire.extend_from_slice(&[1, 1, 1, 1, 0xaa, 0xbb]);
    wire[3] = 46;
    wire[32] = 0x60;
    assert_eq!(payload(&parse(&wire).unwrap()), Some(&[0xaa, 0xbb][..]));
    wire[9] = 99;
    assert_eq!(payload(&parse(&wire).unwrap()).unwrap().len(), 26);
    packet.length = 3;
    assert_eq!(payload(&packet), None);
}
